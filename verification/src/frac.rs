//! Fractional axial hex coordinates and cube rounding.
//!
//! A fractional coordinate is held exactly, as a pair of numerators over a
//! shared positive denominator, so that interpolation along a line and the
//! round-to-nearest-hex algorithm are exact integer computations.
//!
//! Cube rounding rounds `q`, `r` and the derived `s = -q - r` to the
//! nearest integers independently (ties away from zero), then discards the
//! rounded axis with the largest rounding residue and recomputes it from
//! the other two, so that the cube invariant `q + r + s == 0` is restored.
//! The residue comparison is `dq > dr && dq > ds`, then `dr > ds`: this
//! exact tie order is part of the contract, since reversing it changes
//! results on half-integer boundaries.

use vstd::arithmetic::div_mod::{
    lemma_div_is_ordered, lemma_div_pos_is_pos, lemma_fundamental_div_mod_converse,
};
use vstd::prelude::*;

use crate::hex::{abs_int, hex_dist, Hex};

verus! {

/// Largest coordinate magnitude for which fractional interpolation and
/// rounding are exact; generous for any drawable grid.
pub const MAX_COORD: i64 = 1048576;

/// Both components of `h` lie within the exact-arithmetic coordinate range.
pub open spec fn coord_bounded(h: Hex) -> bool {
    &&& -MAX_COORD <= h.q <= MAX_COORD
    &&& -MAX_COORD <= h.r <= MAX_COORD
}

/// The integer nearest to `n / d` for `d >= 1`, with ties rounded away
/// from zero.
pub open spec fn round_div(n: int, d: int) -> int {
    if n >= 0 {
        (2 * n + d) / (2 * d)
    } else {
        -((2 * (-n) + d) / (2 * d))
    }
}

/// Argument ranges on which the executable cube rounding is exact and
/// overflow-free.
pub open spec fn round_args_ok(qn: int, rn: int, den: int) -> bool {
    &&& 1 <= den <= 0x1_0000_0000
    &&& abs_int(qn) <= den * (2 * MAX_COORD)
    &&& abs_int(rn) <= den * (2 * MAX_COORD)
}

/// Cube rounding of the fractional coordinate `(qn / den, rn / den)`:
/// the resulting integer axial pair.
pub open spec fn spec_round(qn: int, rn: int, den: int) -> (int, int) {
    let sn = -qn - rn;
    let q0 = round_div(qn, den);
    let r0 = round_div(rn, den);
    let s0 = round_div(sn, den);
    let dq = q0 * den - qn;
    let dr = r0 * den - rn;
    let ds = s0 * den - sn;
    if dq > dr && dq > ds {
        (-r0 - s0, r0)
    } else if dr > ds {
        (q0, -q0 - s0)
    } else {
        (q0, r0)
    }
}

/// Rounding a quotient that lies within `m` hexes of the origin stays
/// within `m` hexes of the origin.
pub proof fn lemma_round_div_bound(n: int, d: int, m: int)
    requires
        d >= 1,
        m >= 0,
        -(d * m) <= n <= d * m,
    ensures
        -m <= round_div(n, d) <= m,
{
    if n >= 0 {
        assert(2 * n + d <= 2 * (d * m) + d);
        assert(2 * (d * m) + d == m * (2 * d) + d) by (nonlinear_arith);
        lemma_fundamental_div_mod_converse(m * (2 * d) + d, 2 * d, m, d);
        lemma_div_is_ordered(2 * n + d, m * (2 * d) + d, 2 * d);
        lemma_div_pos_is_pos(2 * n + d, 2 * d);
    } else {
        assert(2 * (-n) + d <= 2 * (d * m) + d);
        assert(2 * (d * m) + d == m * (2 * d) + d) by (nonlinear_arith);
        lemma_fundamental_div_mod_converse(m * (2 * d) + d, 2 * d, m, d);
        lemma_div_is_ordered(2 * (-n) + d, m * (2 * d) + d, 2 * d);
        lemma_div_pos_is_pos(2 * (-n) + d, 2 * d);
    }
}

/// Rounding an exact integer multiple of the denominator returns that
/// integer, with a zero residue.
pub proof fn lemma_round_div_exact(k: int, d: int)
    requires
        d >= 1,
    ensures
        round_div(k * d, d) == k,
{
    if k >= 0 {
        assert(2 * (k * d) + d == k * (2 * d) + d) by (nonlinear_arith);
        lemma_fundamental_div_mod_converse(k * (2 * d) + d, 2 * d, k, d);
    } else {
        assert(k * d < 0) by (nonlinear_arith)
            requires k < 0 && d >= 1;
        assert(2 * (-(k * d)) + d == (-k) * (2 * d) + d) by (nonlinear_arith);
        lemma_fundamental_div_mod_converse((-k) * (2 * d) + d, 2 * d, -k, d);
    }
}

/// Cube rounding is exact on integer points: rounding `(qk, rk)` held
/// over any denominator gives back `(qk, rk)`.
pub proof fn lemma_round_exact(qk: int, rk: int, d: int)
    requires
        d >= 1,
    ensures
        spec_round(qk * d, rk * d, d) == (qk, rk),
{
    lemma_round_div_exact(qk, d);
    lemma_round_div_exact(rk, d);
    assert(-(qk * d) - rk * d == (-qk - rk) * d) by (nonlinear_arith);
    lemma_round_div_exact(-qk - rk, d);
}

/// The integer nearest to `n / d`, ties away from zero.
fn round_div_exec(n: i64, d: i64) -> (res: i64)
    requires
        1 <= d <= 0x1_0000_0000,
        -0x40_0000_0000_0000 <= n <= 0x40_0000_0000_0000,
    ensures
        res == round_div(n as int, d as int),
{
    if n >= 0 {
        (2 * n + d) / (2 * d)
    } else {
        -((2 * (-n) + d) / (2 * d))
    }
}

/// Cube rounding over raw numerators; shared by [`FracHex::round`] and
/// the shifted rounding of shape centers.
pub(crate) fn round_parts(qn: i64, rn: i64, den: i64) -> (res: Hex)
    requires
        round_args_ok(qn as int, rn as int, den as int),
    ensures
        res.q == spec_round(qn as int, rn as int, den as int).0,
        res.r == spec_round(qn as int, rn as int, den as int).1,
{
    proof {
        lemma_round_div_bound(qn as int, den as int, 2 * MAX_COORD);
        lemma_round_div_bound(rn as int, den as int, 2 * MAX_COORD);
        assert(abs_int(-(qn as int) - (rn as int)) <= den * (4 * MAX_COORD)) by (nonlinear_arith)
            requires
                abs_int(qn as int) <= den * (2 * MAX_COORD),
                abs_int(rn as int) <= den * (2 * MAX_COORD),
                den >= 1;
        lemma_round_div_bound(-(qn as int) - (rn as int), den as int, 4 * MAX_COORD);
        assert(abs_int(qn as int) <= 0x1_0000_0000 * (2 * MAX_COORD)) by (nonlinear_arith)
            requires
                abs_int(qn as int) <= den * (2 * MAX_COORD),
                1 <= den <= 0x1_0000_0000;
        assert(abs_int(rn as int) <= 0x1_0000_0000 * (2 * MAX_COORD)) by (nonlinear_arith)
            requires
                abs_int(rn as int) <= den * (2 * MAX_COORD),
                1 <= den <= 0x1_0000_0000;
    }
    let sn: i64 = -qn - rn;
    let q0: i64 = round_div_exec(qn, den);
    let r0: i64 = round_div_exec(rn, den);
    let s0: i64 = round_div_exec(sn, den);
    proof {
        assert(abs_int((q0 as int) * (den as int)) <= (2 * MAX_COORD) * 0x1_0000_0000)
            by (nonlinear_arith)
            requires
                -(2 * MAX_COORD) <= q0 <= 2 * MAX_COORD,
                1 <= den <= 0x1_0000_0000;
        assert(abs_int((r0 as int) * (den as int)) <= (2 * MAX_COORD) * 0x1_0000_0000)
            by (nonlinear_arith)
            requires
                -(2 * MAX_COORD) <= r0 <= 2 * MAX_COORD,
                1 <= den <= 0x1_0000_0000;
        assert(abs_int((s0 as int) * (den as int)) <= (4 * MAX_COORD) * 0x1_0000_0000)
            by (nonlinear_arith)
            requires
                -(4 * MAX_COORD) <= s0 <= 4 * MAX_COORD,
                1 <= den <= 0x1_0000_0000;
    }
    let dq: i64 = q0 * den - qn;
    let dr: i64 = r0 * den - rn;
    let ds: i64 = s0 * den - sn;
    if dq > dr && dq > ds {
        Hex { q: (-r0 - s0) as i32, r: r0 as i32 }
    } else if dr > ds {
        Hex { q: q0 as i32, r: (-q0 - s0) as i32 }
    } else {
        Hex { q: q0 as i32, r: r0 as i32 }
    }
}

/// A fractional axial hex coordinate, held exactly as a pair of
/// numerators over one positive denominator.
#[derive(Clone, Copy, Debug)]
pub struct FracHex {
    qn: i64,
    rn: i64,
    den: i64,
}

impl FracHex {
    /// Numerator of the `q` component.
    pub closed spec fn q_num(self) -> int {
        self.qn as int
    }

    /// Numerator of the `r` component.
    pub closed spec fn r_num(self) -> int {
        self.rn as int
    }

    /// Shared positive denominator.
    pub closed spec fn denom(self) -> int {
        self.den as int
    }

    /// Well-formedness: positive bounded denominator, and both components
    /// within the exact-arithmetic coordinate range.
    pub open spec fn wf(self) -> bool {
        &&& 1 <= self.denom() <= 0x8000_0000
        &&& abs_int(self.q_num()) <= self.denom() * MAX_COORD
        &&& abs_int(self.r_num()) <= self.denom() * MAX_COORD
    }

    /// Builds the fractional coordinate `(qn / den, rn / den)`; rejects
    /// arguments outside the exact-arithmetic range.
    pub fn new(qn: i64, rn: i64, den: i64) -> (res: Option<FracHex>)
        ensures
            res is Some <==> {
                &&& 1 <= den <= 0x8000_0000
                &&& abs_int(qn as int) <= den * MAX_COORD
                &&& abs_int(rn as int) <= den * MAX_COORD
            },
            res is Some ==> {
                &&& res->0.q_num() == qn
                &&& res->0.r_num() == rn
                &&& res->0.denom() == den
                &&& res->0.wf()
            },
    {
        if den < 1 || den > 0x8000_0000 {
            return None;
        }
        let bound: i64 = den * MAX_COORD;
        if -bound <= qn && qn <= bound && -bound <= rn && rn <= bound {
            Some(FracHex { qn, rn, den })
        } else {
            None
        }
    }

    /// The exact fractional image of an integer coordinate.
    pub fn from_hex(h: Hex) -> (res: FracHex)
        requires
            coord_bounded(h),
        ensures
            res.q_num() == h.q,
            res.r_num() == h.r,
            res.denom() == 1,
            res.wf(),
    {
        FracHex { qn: h.q as i64, rn: h.r as i64, den: 1 }
    }

    /// The raw numerators and denominator `(qn, rn, den)`.
    pub fn parts(&self) -> (res: (i64, i64, i64))
        ensures
            res.0 == self.q_num(),
            res.1 == self.r_num(),
            res.2 == self.denom(),
    {
        (self.qn, self.rn, self.den)
    }

    /// Numerator of the derived `s` component over the same denominator.
    pub fn s_num(&self) -> (res: i64)
        requires
            self.wf(),
        ensures
            res == -self.q_num() - self.r_num(),
    {
        -self.qn - self.rn
    }

    /// Rounds to the nearest integer hex by cube rounding.
    pub fn round(&self) -> (res: Hex)
        requires
            self.wf(),
        ensures
            res.q == spec_round(self.q_num(), self.r_num(), self.denom()).0,
            res.r == spec_round(self.q_num(), self.r_num(), self.denom()).1,
    {
        proof {
            lemma_wf_round_ok(*self);
        }
        round_parts(self.qn, self.rn, self.den)
    }

    /// Cube rounding of this coordinate offset by one half on both axes;
    /// used by shapes whose visual center sits between hexes.
    pub fn round_plus_half(&self) -> (res: Hex)
        requires
            self.wf(),
        ensures
            res.q == spec_round(
                2 * self.q_num() + self.denom(),
                2 * self.r_num() + self.denom(),
                2 * self.denom(),
            ).0,
            res.r == spec_round(
                2 * self.q_num() + self.denom(),
                2 * self.r_num() + self.denom(),
                2 * self.denom(),
            ).1,
    {
        proof {
            assert(round_args_ok(
                2 * self.q_num() + self.denom(),
                2 * self.r_num() + self.denom(),
                2 * self.denom(),
            )) by (nonlinear_arith)
                requires self.wf();
        }
        round_parts(2 * self.qn + self.den, 2 * self.rn + self.den, 2 * self.den)
    }
}

/// Denominator used when sampling a line of the given hex distance: the
/// distance itself, or one for a degenerate single-point line.
pub open spec fn line_den(dist: int) -> int {
    if dist >= 1 {
        dist
    } else {
        1
    }
}

/// The `i`-th sample of the line from `a` to `b`: the exact interpolation
/// at parameter `i / max(dist, 1)`, cube-rounded to a hex.
pub open spec fn spec_line_point(a: Hex, b: Hex, i: int) -> (int, int) {
    let d = line_den(hex_dist(a, b));
    spec_round(a.q * (d - i) + b.q * i, a.r * (d - i) + b.r * i, d)
}

/// The hex distance of two range-bounded coordinates is at most four
/// times the coordinate range.
pub proof fn lemma_dist_bounded(a: Hex, b: Hex)
    requires
        coord_bounded(a),
        coord_bounded(b),
    ensures
        0 <= hex_dist(a, b) <= 4 * MAX_COORD,
{
    let sum = abs_int(a.q - b.q) + abs_int(a.r - b.r) + abs_int(-(a.q - b.q) - (a.r - b.r));
    lemma_div_is_ordered(sum, 8 * MAX_COORD, 2);
    lemma_div_pos_is_pos(sum, 2);
}

/// The first sample of a line is its start coordinate.
pub proof fn lemma_line_point_first(a: Hex, b: Hex)
    ensures
        spec_line_point(a, b, 0) == (a.q as int, a.r as int),
{
    let d = line_den(hex_dist(a, b));
    assert(a.q * (d - 0) + b.q * 0 == (a.q as int) * d) by (nonlinear_arith);
    assert(a.r * (d - 0) + b.r * 0 == (a.r as int) * d) by (nonlinear_arith);
    lemma_round_exact(a.q as int, a.r as int, d);
}

/// The sample at index `dist` of a non-degenerate line is its end
/// coordinate.
pub proof fn lemma_line_point_last(a: Hex, b: Hex)
    requires
        hex_dist(a, b) >= 1,
    ensures
        spec_line_point(a, b, hex_dist(a, b)) == (b.q as int, b.r as int),
{
    let d = line_den(hex_dist(a, b));
    assert(a.q * (d - d) + b.q * d == (b.q as int) * d) by (nonlinear_arith);
    assert(a.r * (d - d) + b.r * d == (b.r as int) * d) by (nonlinear_arith);
    lemma_round_exact(b.q as int, b.r as int, d);
}

/// Rounding idempotence: the fractional image of an integer hex rounds
/// back to that hex.
pub proof fn lemma_round_idempotent(h: Hex)
    ensures
        spec_round(h.q as int, h.r as int, 1) == (h.q as int, h.r as int),
{
    lemma_round_exact(h.q as int, h.r as int, 1);
}

impl Hex {
    /// Exact linear interpolation from `self` towards `other` at parameter
    /// `num / den`, on all three cube axes at once.
    pub fn lerp(self, other: Hex, num: i32, den: i32) -> (res: FracHex)
        requires
            coord_bounded(self),
            coord_bounded(other),
            1 <= den,
            0 <= num <= den,
        ensures
            res.q_num() == self.q * (den - num) + other.q * num,
            res.r_num() == self.r * (den - num) + other.r * num,
            res.denom() == den,
            res.wf(),
    {
        let rest: i64 = (den - num) as i64;
        let part: i64 = num as i64;
        proof {
            let bound: int = MAX_COORD * 0x8000_0000;
            assert(-bound <= (self.q as int) * rest <= bound) by (nonlinear_arith)
                requires
                    -MAX_COORD <= self.q <= MAX_COORD,
                    0 <= rest < 0x8000_0000,
                    bound == MAX_COORD * 0x8000_0000;
            assert(-bound <= (other.q as int) * part <= bound) by (nonlinear_arith)
                requires
                    -MAX_COORD <= other.q <= MAX_COORD,
                    0 <= part < 0x8000_0000,
                    bound == MAX_COORD * 0x8000_0000;
            assert(-bound <= (self.r as int) * rest <= bound) by (nonlinear_arith)
                requires
                    -MAX_COORD <= self.r <= MAX_COORD,
                    0 <= rest < 0x8000_0000,
                    bound == MAX_COORD * 0x8000_0000;
            assert(-bound <= (other.r as int) * part <= bound) by (nonlinear_arith)
                requires
                    -MAX_COORD <= other.r <= MAX_COORD,
                    0 <= part < 0x8000_0000,
                    bound == MAX_COORD * 0x8000_0000;
        }
        let qn: i64 = (self.q as i64) * rest + (other.q as i64) * part;
        let rn: i64 = (self.r as i64) * rest + (other.r as i64) * part;
        proof {
            assert(abs_int((self.q as int) * rest + (other.q as int) * part)
                <= (den as int) * MAX_COORD) by (nonlinear_arith)
                requires
                    -MAX_COORD <= self.q <= MAX_COORD,
                    -MAX_COORD <= other.q <= MAX_COORD,
                    rest == den - num,
                    part == num,
                    0 <= num <= den;
            assert(abs_int((self.r as int) * rest + (other.r as int) * part)
                <= (den as int) * MAX_COORD) by (nonlinear_arith)
                requires
                    -MAX_COORD <= self.r <= MAX_COORD,
                    -MAX_COORD <= other.r <= MAX_COORD,
                    rest == den - num,
                    part == num,
                    0 <= num <= den;
        }
        FracHex { qn, rn, den: den as i64 }
    }

    /// The `i`-th hex of the sampled line from `self` to `other`:
    /// interpolate at `ind / max(dist, 1)` and cube-round.
    pub fn nlerp(self, other: Hex, ind: usize) -> (res: Hex)
        requires
            coord_bounded(self),
            coord_bounded(other),
            ind <= hex_dist(self, other),
        ensures
            res.q == spec_line_point(self, other, ind as int).0,
            res.r == spec_line_point(self, other, ind as int).1,
    {
        proof {
            lemma_dist_bounded(self, other);
        }
        let dist: i32 = self.distance(other);
        let den: i32 = if dist < 1 { 1 } else { dist };
        self.lerp(other, ind as i32, den).round()
    }

    /// All `dist + 1` hexes of the sampled line from `self` to `other`,
    /// in order from `self` to `other`.
    pub fn line_vec(self, other: Hex) -> (res: Vec<Hex>)
        requires
            coord_bounded(self),
            coord_bounded(other),
        ensures
            res.len() == hex_dist(self, other) + 1,
            forall|i: int|
                0 <= i < res.len() ==> {
                    &&& (#[trigger] res[i]).q == spec_line_point(self, other, i).0
                    &&& res[i].r == spec_line_point(self, other, i).1
                },
            res[0] == self,
            res[hex_dist(self, other)] == other,
    {
        proof {
            lemma_dist_bounded(self, other);
        }
        let dist: i32 = self.distance(other);
        let mut out: Vec<Hex> = Vec::new();
        let mut i: i32 = 0;
        while i <= dist
            invariant
                coord_bounded(self),
                coord_bounded(other),
                dist == hex_dist(self, other),
                0 <= dist <= 4 * MAX_COORD,
                0 <= i <= dist + 1,
                out.len() == i,
                forall|j: int|
                    0 <= j < i ==> {
                        &&& (#[trigger] out[j]).q == spec_line_point(self, other, j).0
                        &&& out[j].r == spec_line_point(self, other, j).1
                    },
            decreases dist + 1 - i,
        {
            out.push(self.nlerp(other, i as usize));
            i += 1;
        }
        proof {
            lemma_line_point_first(self, other);
            if dist >= 1 {
                lemma_line_point_last(self, other);
            } else {
                crate::hex::lemma_distance_zero_iff_eq(self, other);
            }
        }
        out
    }

    /// Writes the `dist + 1` hexes of the sampled line into the prefix of
    /// `out`, leaving the rest of the buffer unchanged, and returns the
    /// distance. A buffer shorter than `dist + 1` is a caller contract
    /// breach and is excluded up front.
    pub fn line(&self, other: Hex, out: &mut Vec<Hex>) -> (res: usize)
        requires
            coord_bounded(*self),
            coord_bounded(other),
            old(out).len() > hex_dist(*self, other),
        ensures
            res == hex_dist(*self, other),
            final(out).len() == old(out).len(),
            forall|i: int|
                0 <= i <= res ==> {
                    &&& (#[trigger] final(out)[i]).q == spec_line_point(*self, other, i).0
                    &&& final(out)[i].r == spec_line_point(*self, other, i).1
                },
            forall|i: int| res < i < final(out).len() ==> final(out)[i] == old(out)[i],
    {
        proof {
            lemma_dist_bounded(*self, other);
        }
        let dist: i32 = self.distance(other);
        let mut i: i32 = 0;
        while i <= dist
            invariant
                coord_bounded(*self),
                coord_bounded(other),
                dist == hex_dist(*self, other),
                0 <= dist <= 4 * MAX_COORD,
                0 <= i <= dist + 1,
                out.len() == old(out).len(),
                out.len() > dist,
                forall|j: int|
                    0 <= j < i ==> {
                        &&& (#[trigger] out[j]).q == spec_line_point(*self, other, j).0
                        &&& out[j].r == spec_line_point(*self, other, j).1
                    },
                forall|j: int| i <= j < out.len() ==> out[j] == old(out)[j],
            decreases dist + 1 - i,
        {
            let h = self.nlerp(other, i as usize);
            out[i as usize] = h;
            i += 1;
        }
        dist as usize
    }
}

/// Well-formed fractional coordinates satisfy the rounding ranges.
proof fn lemma_wf_round_ok(f: FracHex)
    requires
        f.wf(),
    ensures
        round_args_ok(f.q_num(), f.r_num(), f.denom()),
{
    assert(f.denom() * MAX_COORD <= f.denom() * (2 * MAX_COORD)) by (nonlinear_arith)
        requires f.denom() >= 1;
}

} // verus!
