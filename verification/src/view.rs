//! View-control helpers for a rendering adapter: the orientation
//! selector and the wheel-delta-to-zoom mapping.

use vstd::prelude::*;

verus! {

/// The two hexagon rendering orientations a layout can use.
#[derive(Clone, Copy, PartialEq, Eq, Structural, Debug)]
pub enum LayoutType {
    FLAT,
    POINTY,
}

/// Maps a wheel delta to an exact zoom factor `num / den`.
///
/// The mapping is deliberately asymmetric between the two scroll
/// directions: a positive delta gives `100 / dy`, a negative one gives
/// `-dy / 100`. A zero delta, which the raw formula leaves undefined, is
/// handled explicitly and maps to the identity factor.
pub fn dy_to_scale(dy: i32) -> (res: (i32, i32))
    requires
        dy > i32::MIN,
    ensures
        dy > 0 ==> res == (100i32, dy),
        dy < 0 ==> res.0 == -dy && res.1 == 100i32,
        dy == 0 ==> res == (1i32, 1i32),
        res.0 >= 1,
        res.1 >= 1,
{
    if dy > 0 {
        (100, dy)
    } else if dy < 0 {
        (-dy, 100)
    } else {
        (1, 1)
    }
}

} // verus!
