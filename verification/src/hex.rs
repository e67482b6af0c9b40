//! Integer axial hex coordinates and the six-way direction enumeration.
//!
//! A coordinate stores the axial pair `(q, r)`; the third cube axis is
//! always derived as `s = -q - r`, so the cube invariant `q + r + s == 0`
//! holds by construction.

use vstd::prelude::*;

verus! {

/// An integer axial hex coordinate.
#[derive(Clone, Copy, PartialEq, Eq, Structural, Debug, Hash)]
pub struct Hex {
    pub q: i32,
    pub r: i32,
}

/// Builds the hex with axial coordinates `(q, r)`.
pub fn hex(q: i32, r: i32) -> (h: Hex)
    ensures
        h == (Hex { q, r }),
{
    Hex { q, r }
}

/// Absolute value over mathematical integers.
pub open spec fn abs_int(x: int) -> int {
    if x < 0 {
        -x
    } else {
        x
    }
}

/// Hex length of the axial vector `(q, r)`: half the sum of the absolute
/// cube components, which equals the hex-grid walking distance from the
/// origin.
pub open spec fn hex_len(q: int, r: int) -> int {
    (abs_int(q) + abs_int(r) + abs_int(-q - r)) / 2
}

/// Hex-grid distance between two coordinates.
pub open spec fn hex_dist(a: Hex, b: Hex) -> int {
    hex_len(a.q - b.q, a.r - b.r)
}

impl Hex {
    /// The `q` axial component.
    pub fn q(&self) -> (res: i32)
        ensures
            res == self.q,
    {
        self.q
    }

    /// The `r` axial component.
    pub fn r(&self) -> (res: i32)
        ensures
            res == self.r,
    {
        self.r
    }

    /// The derived cube component `s = -q - r`.
    pub fn s(&self) -> (res: i32)
        requires
            i32::MIN <= -(self.q as int) - (self.r as int) <= i32::MAX,
        ensures
            res == -(self.q as int) - (self.r as int),
    {
        let s64: i64 = -(self.q as i64) - (self.r as i64);
        s64 as i32
    }

    /// Component-wise sum of two coordinates.
    pub fn add(self, rhs: Hex) -> (res: Hex)
        requires
            i32::MIN <= self.q + rhs.q <= i32::MAX,
            i32::MIN <= self.r + rhs.r <= i32::MAX,
        ensures
            res.q == self.q + rhs.q,
            res.r == self.r + rhs.r,
    {
        Hex { q: self.q + rhs.q, r: self.r + rhs.r }
    }

    /// Component-wise difference of two coordinates.
    pub fn sub(self, rhs: Hex) -> (res: Hex)
        requires
            i32::MIN <= self.q - rhs.q <= i32::MAX,
            i32::MIN <= self.r - rhs.r <= i32::MAX,
        ensures
            res.q == self.q - rhs.q,
            res.r == self.r - rhs.r,
    {
        Hex { q: self.q - rhs.q, r: self.r - rhs.r }
    }

    /// Scales both components by an integer factor.
    pub fn scale(self, by: i32) -> (res: Hex)
        requires
            i32::MIN <= self.q * by <= i32::MAX,
            i32::MIN <= self.r * by <= i32::MAX,
        ensures
            res.q == self.q * by,
            res.r == self.r * by,
    {
        let q64: i64 = (self.q as i64) * (by as i64);
        let r64: i64 = (self.r as i64) * (by as i64);
        Hex { q: q64 as i32, r: r64 as i32 }
    }

    /// Number of grid steps from the origin to this coordinate.
    pub fn length(self) -> (res: i32)
        requires
            hex_len(self.q as int, self.r as int) <= i32::MAX,
        ensures
            res == hex_len(self.q as int, self.r as int),
    {
        let aq: i64 = abs_i64(self.q as i64);
        let ar: i64 = abs_i64(self.r as i64);
        let as_: i64 = abs_i64(-(self.q as i64) - (self.r as i64));
        let len: i64 = (aq + ar + as_) / 2;
        len as i32
    }

    /// Number of grid steps between two coordinates.
    pub fn distance(self, other: Hex) -> (res: i32)
        requires
            hex_dist(self, other) <= i32::MAX,
        ensures
            res == hex_dist(self, other),
    {
        let dq: i64 = (self.q as i64) - (other.q as i64);
        let dr: i64 = (self.r as i64) - (other.r as i64);
        let len: i64 = (abs_i64(dq) + abs_i64(dr) + abs_i64(-dq - dr)) / 2;
        len as i32
    }
}

/// One of the six hex-grid edge directions, counter-clockwise starting
/// from the lower-right edge.
#[derive(Clone, Copy, PartialEq, Eq, Structural, Debug, Hash)]
pub enum HexDir {
    BotRight,
    Right,
    TopRight,
    TopLeft,
    Left,
    BotLeft,
}

/// Canonical index of a direction: `BotRight` is 0, counting
/// counter-clockwise.
pub open spec fn dir_ind(d: HexDir) -> int {
    match d {
        HexDir::BotRight => 0,
        HexDir::Right => 1,
        HexDir::TopRight => 2,
        HexDir::TopLeft => 3,
        HexDir::Left => 4,
        HexDir::BotLeft => 5,
    }
}

/// Direction with the given canonical index.
pub open spec fn ind_dir(i: int) -> HexDir {
    if i == 0 {
        HexDir::BotRight
    } else if i == 1 {
        HexDir::Right
    } else if i == 2 {
        HexDir::TopRight
    } else if i == 3 {
        HexDir::TopLeft
    } else if i == 4 {
        HexDir::Left
    } else {
        HexDir::BotLeft
    }
}

/// Unit axial offset of a direction. The table is shared by every shape
/// and by the corner-angle computation of a rendering layout.
pub open spec fn dir_unit(d: HexDir) -> Hex {
    match d {
        HexDir::BotRight => Hex { q: 0i32, r: 1i32 },
        HexDir::Right => Hex { q: 1i32, r: 0i32 },
        HexDir::TopRight => Hex { q: 1i32, r: -1i32 },
        HexDir::TopLeft => Hex { q: 0i32, r: -1i32 },
        HexDir::Left => Hex { q: -1i32, r: 0i32 },
        HexDir::BotLeft => Hex { q: -1i32, r: 1i32 },
    }
}

/// The neighbor of `h` one step in direction `d`.
pub open spec fn spec_neighbor(h: Hex, d: HexDir) -> Hex {
    Hex { q: (h.q + dir_unit(d).q) as i32, r: (h.r + dir_unit(d).r) as i32 }
}

/// Both neighbor components of `h` stay inside the `i32` range in every
/// direction.
pub open spec fn neighbors_fit(h: Hex) -> bool {
    &&& i32::MIN < h.q < i32::MAX
    &&& i32::MIN < h.r < i32::MAX
}

impl HexDir {
    /// Canonical index of this direction.
    pub fn to_ind(self) -> (res: usize)
        ensures
            res == dir_ind(self),
    {
        match self {
            HexDir::BotRight => 0,
            HexDir::Right => 1,
            HexDir::TopRight => 2,
            HexDir::TopLeft => 3,
            HexDir::Left => 4,
            HexDir::BotLeft => 5,
        }
    }

    /// Direction with canonical index `value`. Indices outside `0..6` are
    /// a caller contract breach and are excluded up front.
    pub fn from_ind(value: usize) -> (res: HexDir)
        requires
            value < 6,
        ensures
            res == ind_dir(value as int),
            dir_ind(res) == value,
    {
        match value {
            0 => HexDir::BotRight,
            1 => HexDir::Right,
            2 => HexDir::TopRight,
            3 => HexDir::TopLeft,
            4 => HexDir::Left,
            _ => HexDir::BotLeft,
        }
    }

    /// Unit axial offset of this direction.
    pub fn unit(self) -> (res: Hex)
        ensures
            res == dir_unit(self),
    {
        match self {
            HexDir::BotRight => Hex { q: 0, r: 1 },
            HexDir::Right => Hex { q: 1, r: 0 },
            HexDir::TopRight => Hex { q: 1, r: -1 },
            HexDir::TopLeft => Hex { q: 0, r: -1 },
            HexDir::Left => Hex { q: -1, r: 0 },
            HexDir::BotLeft => Hex { q: -1, r: 1 },
        }
    }
}

impl Hex {
    /// Unit axial offset of the direction with canonical index `d`.
    /// Indices outside `0..6` are a caller contract breach and are
    /// excluded up front.
    pub fn direction(d: usize) -> (res: Hex)
        requires
            d < 6,
        ensures
            res == dir_unit(ind_dir(d as int)),
    {
        HexDir::from_ind(d).unit()
    }

    /// The neighbor one step in direction `d`.
    pub fn neighbor(self, d: HexDir) -> (res: Hex)
        requires
            neighbors_fit(self),
        ensures
            res == spec_neighbor(self, d),
    {
        self.add(d.unit())
    }

    /// All six neighbors, in canonical direction order.
    pub fn neighbors(self) -> (res: Vec<Hex>)
        requires
            neighbors_fit(self),
        ensures
            res.len() == 6,
            forall|i: int| 0 <= i < 6 ==> res[i] == spec_neighbor(self, ind_dir(i)),
    {
        let mut out: Vec<Hex> = Vec::new();
        let mut i: usize = 0;
        while i < 6
            invariant
                i <= 6,
                out.len() == i,
                neighbors_fit(self),
                forall|j: int| 0 <= j < i ==> out[j] == spec_neighbor(self, ind_dir(j)),
            decreases 6 - i,
        {
            out.push(self.neighbor(HexDir::from_ind(i)));
            i += 1;
        }
        out
    }

    /// Packs both components into one 64-bit word: `q` in the upper half,
    /// the sign-extended `r` in the lower half.
    pub fn hash(&self) -> (res: u64)
        ensures
            res == ((self.q as u64) << 32u64) | (self.r as u64),
    {
        #[verifier::truncate]
        let qh: u64 = (self.q as u64) << 32u64;
        #[verifier::truncate]
        let rl: u64 = self.r as u64;
        qh | rl
    }
}

/// Floor division by two, exact also for negative values; the row-shift
/// convention used consistently by the rectangular shapes.
pub(crate) fn div_floor_2(a: i64) -> (res: i64)
    requires
        -0x4000_0000_0000_0000 < a < 0x4000_0000_0000_0000,
    ensures
        res == (a as int) / 2,
{
    if a >= 0 {
        a / 2
    } else {
        -((-a + 1) / 2)
    }
}

/// Halving a non-negative extent keeps it non-negative and no larger.
pub(crate) proof fn lemma_half_bounds(n: int)
    requires
        0 <= n,
    ensures
        0 <= n / 2 <= n,
{
    vstd::arithmetic::div_mod::lemma_div_pos_is_pos(n, 2);
    vstd::arithmetic::div_mod::lemma_div_is_ordered(n, n + n, 2);
    vstd::arithmetic::div_mod::lemma_fundamental_div_mod_converse(n + n, 2, n, 0);
}

/// Absolute value on `i64`, exact for every input a 32-bit sum can produce.
fn abs_i64(x: i64) -> (res: i64)
    requires
        x > i64::MIN,
    ensures
        res == abs_int(x as int),
{
    if x < 0 {
        -x
    } else {
        x
    }
}

/// Adding a coordinate and then subtracting it again restores the
/// original value: whenever `sum` and `res` satisfy the contracts of
/// [`Hex::add`] and [`Hex::sub`], `res` is `a` itself.
pub proof fn lemma_add_sub_cancel(a: Hex, b: Hex, sum: Hex, res: Hex)
    requires
        sum.q == a.q + b.q,
        sum.r == a.r + b.r,
        res.q == sum.q - b.q,
        res.r == sum.r - b.r,
    ensures
        res == a,
{
}

/// Hex distance is symmetric in its two arguments.
pub proof fn lemma_distance_symmetric(a: Hex, b: Hex)
    ensures
        hex_dist(a, b) == hex_dist(b, a),
{
}

/// The distance from a coordinate to itself is zero.
pub proof fn lemma_distance_self_zero(a: Hex)
    ensures
        hex_dist(a, a) == 0,
{
}

/// Every neighbor lies at hex distance exactly one, so in particular it
/// differs from its origin.
pub proof fn lemma_neighbor_distance(h: Hex, d: HexDir)
    requires
        neighbors_fit(h),
    ensures
        hex_dist(h, spec_neighbor(h, d)) == 1,
        spec_neighbor(h, d) != h,
{
}

/// Hex distance separates points: it is zero exactly on equal
/// coordinates.
pub proof fn lemma_distance_zero_iff_eq(a: Hex, b: Hex)
    ensures
        hex_dist(a, b) == 0 <==> a == b,
{
    let x = a.q - b.q;
    let y = a.r - b.r;
    let total = abs_int(x) + abs_int(y) + abs_int(-x - y);
    if hex_dist(a, b) == 0 {
        assert(total >= 2 * abs_int(x));
        assert(total >= 2 * abs_int(y));
        assert((2 * abs_int(x)) / 2 == abs_int(x)) by {
            vstd::arithmetic::div_mod::lemma_fundamental_div_mod_converse(
                2 * abs_int(x),
                2,
                abs_int(x),
                0,
            );
        }
        assert((2 * abs_int(y)) / 2 == abs_int(y)) by {
            vstd::arithmetic::div_mod::lemma_fundamental_div_mod_converse(
                2 * abs_int(y),
                2,
                abs_int(y),
                0,
            );
        }
        vstd::arithmetic::div_mod::lemma_div_is_ordered(2 * abs_int(x), total, 2);
        vstd::arithmetic::div_mod::lemma_div_is_ordered(2 * abs_int(y), total, 2);
    }
}

} // verus!
