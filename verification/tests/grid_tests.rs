use hexgrid::hex::hex;
use hexgrid::hex_rect::HexRect;
use hexgrid::view::{dy_to_scale, LayoutType};

#[test]
fn rect_qr0_size() {
    let tl = hex(0, 0);
    let br = hex(3, 6);
    for (a, b) in [(tl, br), (br, tl)] {
        let r = HexRect::new(a, b);
        assert_eq!((0, 0), r.qr0());
        assert_eq!((7, 7), r.size());
    }
}

#[test]
fn rect_corners() {
    let want = [(0, 3), (4, 3), (-1, 5), (3, 5)].map(|(q, r)| hex(q, r));
    for (i, j) in [(0, 3), (3, 0), (1, 2), (2, 1)] {
        let a = want[i];
        let b = want[j];
        let r = HexRect::new(a, b);
        assert_eq!(&want.to_vec(), &r.corners(), "a={:?}, b={:?}", a, b);
    }
}

#[test]
fn hex_rect_area_and_corners() {
    let r = HexRect::new(hex(0, 0), hex(3, 6));
    assert_eq!(49, r.area());
    assert_eq!(hex(0, 0), r.top_left());
    assert_eq!(hex(6, 0), r.top_right());
    assert_eq!(hex(-3, 6), r.bot_left());
    assert_eq!(hex(3, 6), r.bot_right());
}

#[test]
fn hex_rect_contains_and_offsets() {
    let r = HexRect::new(hex(0, 0), hex(3, 6));
    assert!(r.contains(hex(0, 0)));
    assert!(r.contains(hex(-3, 6)));
    assert!(!r.contains(hex(7, 0)));
    assert!(!r.contains(hex(0, 7)));
    assert_eq!(Some((0, 0)), r.qr_off(hex(0, 0)));
    assert_eq!(Some((0, 6)), r.qr_off(hex(-3, 6)));
    assert_eq!(None, r.qr_off(hex(0, -1)));
}

#[test]
fn hex_rect_lookup_by_offsets() {
    let r = HexRect::new(hex(0, 0), hex(3, 6));
    assert_eq!(Some(hex(0, 0)), r.hex(0, 0));
    assert_eq!(Some(hex(-1, 3)), r.hex(0, 3));
    assert_eq!(None, r.hex(7, 0));
    assert_eq!(None, r.hex(0, -1));
    assert_eq!(hex(-1, 3), r.hex_unchecked(3, 0));
    assert_eq!((0, 3), r.row_col_unchecked(hex(-1, 3)));
}

#[test]
fn hex_rect_offsets_roundtrip() {
    let r = HexRect::new(hex(0, 0), hex(3, 6));
    for q_off in 0..7 {
        for r_off in 0..7 {
            let h = r.hex(q_off, r_off).unwrap();
            assert!(r.contains(h));
            assert_eq!(Some((q_off, r_off)), r.qr_off(h));
            assert_eq!(h, r.hex_unchecked(r_off as usize, q_off as usize));
        }
    }
}

#[test]
fn hex_rect_corners_are_members() {
    // A region whose top row sits at an odd coordinate, so the row shift
    // of the anchor is nonzero.
    let a = hex(0, 3);
    let b = hex(3, 5);
    let r = HexRect::new(a, b);
    for corner in r.corners() {
        assert!(r.contains(corner), "corner {:?}", corner);
    }
    assert!(r.contains(a));
    assert!(r.contains(b));
    assert_eq!(Some((0, 0)), r.qr_off(r.top_left()));
    assert_eq!(Some(r.top_left()), r.hex(0, 0));
    assert_eq!(Some(r.bot_right()), r.hex(4, 2));
}

#[test]
fn zoom_scale_branch_values() {
    // Both documented wheel deltas land on the unit factor: 100 / 100 on
    // the positive branch and 100 / 100 on the negative one.
    assert_eq!((100, 100), dy_to_scale(100));
    let (n, d) = dy_to_scale(-100);
    assert_eq!((100, 100), (n, d));
    // Away from the crossover the branches are asymmetric.
    assert_eq!((100, 50), dy_to_scale(50));
    assert_eq!((50, 100), dy_to_scale(-50));
    assert_eq!((100, 200), dy_to_scale(200));
    assert_eq!((200, 100), dy_to_scale(-200));
}

#[test]
fn zoom_scale_matches_float_formula() {
    for dy in [-200, -100, -50, -1, 1, 50, 100, 200] {
        let (n, d) = dy_to_scale(dy);
        let frac = (dy as f32) * -0.01;
        let want = if frac < 0.0 { 1.0 / frac.abs() } else { frac };
        assert!((n as f32 / d as f32 - want).abs() < 1e-6);
    }
}

#[test]
fn zoom_scale_zero_is_identity() {
    assert_eq!((1, 1), dy_to_scale(0));
}

#[test]
fn layout_type_values() {
    assert_ne!(LayoutType::FLAT, LayoutType::POINTY);
    let t = LayoutType::POINTY;
    assert_eq!(LayoutType::POINTY, t);
}
