//! A straight run of hex tiles between two endpoints, classified by cube
//! axis so that axis-aligned lines use an exact closed-form index formula
//! instead of interpolation. The closed forms agree exactly with the
//! generic interpolate-and-round path (see
//! [`lemma_line_closed_form_matches_sampling`]).
//!
//! A line covers the `dist` tiles from its start up to, but not
//! including, its end.

use vstd::arithmetic::div_mod::lemma_fundamental_div_mod_converse;
use vstd::prelude::*;

use crate::frac::{
    coord_bounded, lemma_dist_bounded, lemma_round_exact, line_den, spec_line_point, spec_round,
    MAX_COORD,
};
use crate::hex::{abs_int, hex_dist, Hex};

verus! {

/// The cube-axis classification of a line: constant-`q`, constant-`r`,
/// constant-`s`, or a generic diagonal.
#[derive(Clone, Copy, PartialEq, Eq, Structural, Debug)]
pub enum LineType {
    G,
    Q,
    R,
    S,
}

/// Sign of an integer: one of `-1`, `0`, `1`.
pub open spec fn spec_sign(x: int) -> int {
    if x > 0 {
        1
    } else if x < 0 {
        -1
    } else {
        0
    }
}

/// Classification of the line from `a` to `b`, testing the axes in the
/// fixed order `q`, `r`, `s`.
pub open spec fn spec_classify(a: Hex, b: Hex) -> LineType {
    if a.q == b.q {
        LineType::Q
    } else if a.r == b.r {
        LineType::R
    } else if a.q + a.r == b.q + b.r {
        LineType::S
    } else {
        LineType::G
    }
}

/// The line shape: endpoints and their cached axis classification.
#[derive(Clone, Copy, PartialEq, Eq, Structural, Debug)]
pub struct Line {
    pub h0: Hex,
    pub h1: Hex,
    pub t: LineType,
}

impl Line {
    /// Well-formedness: endpoints in the exact-arithmetic range and a
    /// classification that matches them.
    pub open spec fn wf(self) -> bool {
        &&& coord_bounded(self.h0)
        &&& coord_bounded(self.h1)
        &&& self.t == spec_classify(self.h0, self.h1)
    }

    /// Number of tiles the line covers: the endpoint distance (the end
    /// hex itself is not covered).
    pub open spec fn spec_area(self) -> int {
        match self.t {
            LineType::Q => abs_int(self.h0.r - self.h1.r),
            LineType::R => abs_int(self.h0.q - self.h1.q),
            LineType::S => abs_int(self.h0.q - self.h1.q),
            LineType::G => hex_dist(self.h0, self.h1),
        }
    }

    /// The tile at index `i`: one closed-form step along the constant
    /// axis, or the `i`-th interpolation sample on a generic diagonal.
    pub open spec fn spec_hex_at(self, i: int) -> Hex {
        match self.t {
            LineType::Q => Hex {
                q: self.h0.q,
                r: (self.h0.r + i * spec_sign(self.h1.r - self.h0.r)) as i32,
            },
            LineType::R => Hex {
                q: (self.h0.q + i * spec_sign(self.h1.q - self.h0.q)) as i32,
                r: self.h0.r,
            },
            LineType::S => Hex {
                q: (self.h0.q + i * spec_sign(self.h1.q - self.h0.q)) as i32,
                r: (self.h0.r - i * spec_sign(self.h1.q - self.h0.q)) as i32,
            },
            LineType::G => Hex {
                q: spec_line_point(self.h0, self.h1, i).0 as i32,
                r: spec_line_point(self.h0, self.h1, i).1 as i32,
            },
        }
    }

    /// Builds the line from `h0` to `h1`, classifying it by cube axis.
    pub fn new(h0: Hex, h1: Hex) -> (res: Line)
        requires
            coord_bounded(h0),
            coord_bounded(h1),
        ensures
            res.h0 == h0,
            res.h1 == h1,
            res.t == spec_classify(h0, h1),
            res.wf(),
    {
        let t: LineType = if h0.q == h1.q {
            LineType::Q
        } else if h0.r == h1.r {
            LineType::R
        } else if (h0.q as i64) + (h0.r as i64) == (h1.q as i64) + (h1.r as i64) {
            LineType::S
        } else {
            LineType::G
        };
        Line { h0, h1, t }
    }

    /// The line's representative center: its start hex.
    pub fn center(&self) -> (res: Hex)
        ensures
            res == self.h0,
    {
        self.h0
    }

    /// Number of tiles the line covers.
    pub fn area(&self) -> (res: usize)
        requires
            self.wf(),
        ensures
            res == self.spec_area(),
    {
        match self.t {
            LineType::Q => {
                let d: i64 = (self.h0.r as i64) - (self.h1.r as i64);
                (if d < 0 {
                    -d
                } else {
                    d
                }) as usize
            },
            LineType::R | LineType::S => {
                let d: i64 = (self.h0.q as i64) - (self.h1.q as i64);
                (if d < 0 {
                    -d
                } else {
                    d
                }) as usize
            },
            LineType::G => {
                proof {
                    lemma_dist_bounded(self.h0, self.h1);
                }
                self.h0.distance(self.h1) as usize
            },
        }
    }

    /// The tile at index `ind`, when the index is inside the line.
    pub fn hex_by_ind(&self, ind: usize) -> (res: Option<Hex>)
        requires
            self.wf(),
        ensures
            res == if ind < self.spec_area() {
                Some(self.spec_hex_at(ind as int))
            } else {
                None::<Hex>
            },
    {
        if ind >= self.area() {
            return None;
        }
        proof {
            lemma_dist_bounded(self.h0, self.h1);
        }
        let i: i64 = ind as i64;
        match self.t {
            LineType::Q => {
                let sg: i64 = sign_i64((self.h1.r as i64) - (self.h0.r as i64));
                proof {
                    lemma_step_bound(ind as int, sg as int, self.spec_area());
                }
                let r: i64 = (self.h0.r as i64) + i * sg;
                Some(Hex { q: self.h0.q, r: r as i32 })
            },
            LineType::R => {
                let sg: i64 = sign_i64((self.h1.q as i64) - (self.h0.q as i64));
                proof {
                    lemma_step_bound(ind as int, sg as int, self.spec_area());
                }
                let q: i64 = (self.h0.q as i64) + i * sg;
                Some(Hex { q: q as i32, r: self.h0.r })
            },
            LineType::S => {
                let sg: i64 = sign_i64((self.h1.q as i64) - (self.h0.q as i64));
                proof {
                    lemma_step_bound(ind as int, sg as int, self.spec_area());
                }
                let q: i64 = (self.h0.q as i64) + i * sg;
                let r: i64 = (self.h0.r as i64) - i * sg;
                Some(Hex { q: q as i32, r: r as i32 })
            },
            LineType::G => Some(self.h0.nlerp(self.h1, ind)),
        }
    }

    /// The line's tiles in index order, from the start hex towards (and
    /// excluding) the end hex.
    pub fn hexes(&self) -> (res: Vec<Hex>)
        requires
            self.wf(),
        ensures
            res.len() == self.spec_area(),
            forall|i: int| 0 <= i < res.len() ==> res[i] == self.spec_hex_at(i),
    {
        let n: usize = self.area();
        let mut out: Vec<Hex> = Vec::new();
        let mut i: usize = 0;
        while i < n
            invariant
                self.wf(),
                n == self.spec_area(),
                i <= n,
                out.len() == i,
                forall|j: int| 0 <= j < i ==> out[j] == self.spec_hex_at(j),
            decreases n - i,
        {
            let hx = self.hex_by_ind(i);
            match hx {
                Some(v) => out.push(v),
                None => {
                    proof {
                        assert(false);
                    }
                },
            }
            i += 1;
        }
        out
    }

    /// The index of `hx` among the line's tiles, when the line covers
    /// it: the least matching index.
    pub fn ind_by_hex(&self, hx: Hex) -> (res: Option<usize>)
        requires
            self.wf(),
        ensures
            res is Some <==> spec_find_from(*self, hx, 0) is Some,
            res is Some ==> res->0 == spec_find_from(*self, hx, 0)->0,
            res is Some <==> exists|i: int|
                0 <= i < self.spec_area() && #[trigger] self.spec_hex_at(i) == hx,
            res is Some ==> {
                &&& res->0 < self.spec_area()
                &&& self.spec_hex_at(res->0 as int) == hx
                &&& forall|j: int| 0 <= j < res->0 ==> self.spec_hex_at(j) != hx
            },
    {
        proof {
            lemma_find_from_spec(*self, hx, 0);
        }
        let n = self.area();
        let mut i: usize = 0;
        while i < n
            invariant
                self.wf(),
                n == self.spec_area(),
                i <= n,
                forall|j: int| 0 <= j < i ==> self.spec_hex_at(j) != hx,
            decreases n - i,
        {
            let cur = self.hex_by_ind(i);
            match cur {
                Some(v) => {
                    if v == hx {
                        proof {
                            lemma_find_from_spec(*self, hx, 0);
                            let w = spec_find_from(*self, hx, 0)->0;
                            assert(w >= i);
                            assert(w <= i);
                        }
                        return Some(i);
                    }
                },
                None => {
                    proof {
                        assert(false);
                    }
                },
            }
            i += 1;
        }
        None
    }

    /// Whether the line covers `hx` as one of its tiles; agrees with
    /// `ind_by_hex`.
    pub fn contains(&self, hx: Hex) -> (res: bool)
        requires
            self.wf(),
        ensures
            res == (spec_find_from(*self, hx, 0) is Some),
            res == exists|i: int|
                0 <= i < self.spec_area() && #[trigger] self.spec_hex_at(i) == hx,
    {
        proof {
            lemma_find_from_spec(*self, hx, 0);
        }
        self.ind_by_hex(hx).is_some()
    }

    /// A copy of the line translated so that it starts at `hex`.
    pub fn move_to(&self, hex: Hex) -> (res: Line)
        requires
            self.wf(),
            coord_bounded(hex),
            -MAX_COORD <= self.h1.q - self.h0.q + hex.q <= MAX_COORD,
            -MAX_COORD <= self.h1.r - self.h0.r + hex.r <= MAX_COORD,
        ensures
            res.h0 == hex,
            res.h1.q == self.h1.q - self.h0.q + hex.q,
            res.h1.r == self.h1.r - self.h0.r + hex.r,
            res.t == self.t,
            res.wf(),
    {
        let q: i64 = (self.h1.q as i64) - (self.h0.q as i64) + (hex.q as i64);
        let r: i64 = (self.h1.r as i64) - (self.h0.r as i64) + (hex.r as i64);
        Line { h0: hex, h1: Hex { q: q as i32, r: r as i32 }, t: self.t }
    }
}

/// The least index at or after `k` whose tile is `hx`, if the line
/// covers `hx` there at all.
pub open spec fn spec_find_from(l: Line, hx: Hex, k: int) -> Option<int>
    decreases l.spec_area() - k,
{
    if k < 0 || k >= l.spec_area() {
        None
    } else if l.spec_hex_at(k) == hx {
        Some(k)
    } else {
        spec_find_from(l, hx, k + 1)
    }
}

/// The search finds an index exactly when a tile at or after `k`
/// matches, and then returns the least such index.
pub proof fn lemma_find_from_spec(l: Line, hx: Hex, k: int)
    requires
        0 <= k,
    ensures
        spec_find_from(l, hx, k) is Some <==> exists|i: int|
            k <= i < l.spec_area() && #[trigger] l.spec_hex_at(i) == hx,
        spec_find_from(l, hx, k) is Some ==> {
            let v = spec_find_from(l, hx, k)->0;
            &&& k <= v < l.spec_area()
            &&& l.spec_hex_at(v) == hx
            &&& forall|j: int| k <= j < v ==> l.spec_hex_at(j) != hx
        },
    decreases l.spec_area() - k,
{
    if k < l.spec_area() {
        lemma_find_from_spec(l, hx, k + 1);
        if l.spec_hex_at(k) != hx {
            if exists|i: int| k <= i < l.spec_area() && #[trigger] l.spec_hex_at(i) == hx {
                let i = choose|i: int|
                    k <= i < l.spec_area() && #[trigger] l.spec_hex_at(i) == hx;
                assert(k + 1 <= i < l.spec_area() && l.spec_hex_at(i) == hx);
            }
        }
    }
}

/// On an axis-aligned line the tiles are pairwise distinct.
pub proof fn lemma_line_axis_injective(l: Line, i: int, j: int)
    requires
        l.wf(),
        l.t != LineType::G,
        0 <= i < l.spec_area(),
        0 <= j < l.spec_area(),
        i != j,
    ensures
        l.spec_hex_at(i) != l.spec_hex_at(j),
{
    let a = l.h0;
    let b = l.h1;
    match l.t {
        LineType::Q => {
            let sg = spec_sign(b.r - a.r);
            assert(sg == 1 || sg == -1);
            assert(i * sg != j * sg) by (nonlinear_arith)
                requires
                    i != j,
                    sg == 1 || sg == -1;
            lemma_step_bound(i, sg, l.spec_area());
            lemma_step_bound(j, sg, l.spec_area());
        },
        LineType::R | LineType::S => {
            let sg = spec_sign(b.q - a.q);
            assert(sg == 1 || sg == -1);
            assert(i * sg != j * sg) by (nonlinear_arith)
                requires
                    i != j,
                    sg == 1 || sg == -1;
            lemma_step_bound(i, sg, l.spec_area());
            lemma_step_bound(j, sg, l.spec_area());
        },
        LineType::G => {},
    }
}

/// On an axis-aligned line the reverse lookup inverts `hex_by_ind`
/// exactly: the tile at index `i` is found back at index `i`.
pub proof fn lemma_line_index_roundtrip(l: Line, i: int)
    requires
        l.wf(),
        l.t != LineType::G,
        0 <= i < l.spec_area(),
    ensures
        spec_find_from(l, l.spec_hex_at(i), 0) == Some(i),
{
    let hx = l.spec_hex_at(i);
    lemma_find_from_spec(l, hx, 0);
    assert(spec_find_from(l, hx, 0) is Some);
    let v = spec_find_from(l, hx, 0)->0;
    if v != i {
        lemma_line_axis_injective(l, v, i);
    }
}

/// Sign of an `i64` value.
fn sign_i64(x: i64) -> (res: i64)
    ensures
        res == spec_sign(x as int),
{
    if x > 0 {
        1
    } else if x < 0 {
        -1
    } else {
        0
    }
}

/// A step of at most `i` in either direction stays within `i` of the
/// start.
proof fn lemma_step_bound(i: int, sg: int, area: int)
    requires
        0 <= i < area,
        -1 <= sg <= 1,
    ensures
        -area <= i * sg <= area,
{
    assert(-i <= i * sg <= i) by (nonlinear_arith)
        requires
            0 <= i,
            -1 <= sg <= 1;
}

/// Cube-rounding a fraction whose components stay within `m` hexes of the
/// origin gives a hex within `3 * m` of the origin on both axes.
pub proof fn lemma_round_result_bounded(qn: int, rn: int, den: int, m: int)
    requires
        den >= 1,
        m >= 0,
        abs_int(qn) <= den * m,
        abs_int(rn) <= den * m,
    ensures
        abs_int(spec_round(qn, rn, den).0) <= 3 * m,
        abs_int(spec_round(qn, rn, den).1) <= 3 * m,
{
    crate::frac::lemma_round_div_bound(qn, den, m);
    crate::frac::lemma_round_div_bound(rn, den, m);
    assert(abs_int(-qn - rn) <= den * (2 * m)) by (nonlinear_arith)
        requires
            abs_int(qn) <= den * m,
            abs_int(rn) <= den * m,
            den >= 1;
    crate::frac::lemma_round_div_bound(-qn - rn, den, 2 * m);
}

/// The interpolation samples of a line between range-bounded endpoints
/// stay within three coordinate ranges of the origin.
pub proof fn lemma_line_point_bounded(a: Hex, b: Hex, i: int)
    requires
        coord_bounded(a),
        coord_bounded(b),
        0 <= i <= line_den(hex_dist(a, b)),
    ensures
        abs_int(spec_line_point(a, b, i).0) <= 3 * MAX_COORD,
        abs_int(spec_line_point(a, b, i).1) <= 3 * MAX_COORD,
{
    let d = line_den(hex_dist(a, b));
    lemma_dist_bounded(a, b);
    assert(abs_int(a.q * (d - i) + b.q * i) <= d * MAX_COORD) by (nonlinear_arith)
        requires
            -MAX_COORD <= a.q <= MAX_COORD,
            -MAX_COORD <= b.q <= MAX_COORD,
            0 <= i <= d;
    assert(abs_int(a.r * (d - i) + b.r * i) <= d * MAX_COORD) by (nonlinear_arith)
        requires
            -MAX_COORD <= a.r <= MAX_COORD,
            -MAX_COORD <= b.r <= MAX_COORD,
            0 <= i <= d;
    lemma_round_result_bounded(
        a.q * (d - i) + b.q * i,
        a.r * (d - i) + b.r * i,
        d,
        MAX_COORD as int,
    );
}

/// On an axis-aligned line the covered tile count equals the endpoint
/// distance, so the closed forms and the generic sampler index the same
/// range.
pub proof fn lemma_line_area_is_distance(l: Line)
    requires
        l.wf(),
    ensures
        l.spec_area() == hex_dist(l.h0, l.h1),
{
    let dq = l.h0.q - l.h1.q;
    let dr = l.h0.r - l.h1.r;
    let total = abs_int(dq) + abs_int(dr) + abs_int(-dq - dr);
    match l.t {
        LineType::Q => {
            assert(total == 2 * abs_int(dr));
            lemma_fundamental_div_mod_converse(2 * abs_int(dr), 2, abs_int(dr), 0);
        },
        LineType::R => {
            assert(total == 2 * abs_int(dq));
            lemma_fundamental_div_mod_converse(2 * abs_int(dq), 2, abs_int(dq), 0);
        },
        LineType::S => {
            assert(total == 2 * abs_int(dq));
            lemma_fundamental_div_mod_converse(2 * abs_int(dq), 2, abs_int(dq), 0);
        },
        LineType::G => {},
    }
}

/// The closed-form index formulas of the axis-aligned line types produce
/// exactly the tiles that the generic interpolate-and-round sampler
/// produces; on a generic diagonal the two coincide by definition.
pub proof fn lemma_line_closed_form_matches_sampling(l: Line, i: int)
    requires
        l.wf(),
        0 <= i < l.spec_area(),
    ensures
        l.spec_hex_at(i).q == spec_line_point(l.h0, l.h1, i).0,
        l.spec_hex_at(i).r == spec_line_point(l.h0, l.h1, i).1,
{
    let a = l.h0;
    let b = l.h1;
    lemma_line_area_is_distance(l);
    let d = line_den(hex_dist(a, b));
    assert(d == l.spec_area());
    match l.t {
        LineType::Q => {
            let sg = spec_sign(b.r - a.r);
            assert(b.r - a.r == sg * d) by (nonlinear_arith)
                requires
                    d == abs_int(a.r - b.r),
                    sg == spec_sign(b.r - a.r),
                    d >= 1;
            assert(a.q * (d - i) + b.q * i == a.q * d) by (nonlinear_arith)
                requires b.q == a.q;
            assert(a.r * (d - i) + b.r * i == (a.r + i * sg) * d) by (nonlinear_arith)
                requires b.r == a.r + sg * d;
            lemma_round_exact(a.q as int, a.r + i * sg, d);
            lemma_step_bound(i, sg, d + 1);
        },
        LineType::R => {
            let sg = spec_sign(b.q - a.q);
            assert(b.q - a.q == sg * d) by (nonlinear_arith)
                requires
                    d == abs_int(a.q - b.q),
                    sg == spec_sign(b.q - a.q),
                    d >= 1;
            assert(a.r * (d - i) + b.r * i == a.r * d) by (nonlinear_arith)
                requires b.r == a.r;
            assert(a.q * (d - i) + b.q * i == (a.q + i * sg) * d) by (nonlinear_arith)
                requires b.q == a.q + sg * d;
            lemma_round_exact(a.q + i * sg, a.r as int, d);
            lemma_step_bound(i, sg, d + 1);
        },
        LineType::S => {
            let sg = spec_sign(b.q - a.q);
            assert(b.q - a.q == sg * d) by (nonlinear_arith)
                requires
                    d == abs_int(a.q - b.q),
                    sg == spec_sign(b.q - a.q),
                    d >= 1;
            assert(b.r - a.r == -(sg * d)) by {
                assert(a.q + a.r == b.q + b.r);
            }
            assert(a.q * (d - i) + b.q * i == (a.q + i * sg) * d) by (nonlinear_arith)
                requires b.q == a.q + sg * d;
            assert(a.r * (d - i) + b.r * i == (a.r - i * sg) * d) by (nonlinear_arith)
                requires b.r == a.r - sg * d;
            lemma_round_exact(a.q + i * sg, a.r - i * sg, d);
            lemma_step_bound(i, sg, d + 1);
        },
        LineType::G => {
            lemma_line_point_bounded(a, b, i);
        },
    }
}

} // verus!
