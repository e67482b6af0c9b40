use hexgrid::frac::FracHex;
use hexgrid::hex::{hex, HexDir};
use hexgrid::line::Line;
use hexgrid::point::Point;
use hexgrid::rect::Rect;
use hexgrid::shape::{Overlap, Shape};
use hexgrid::tri::Tri;

#[test]
fn hex_iter() {
    let t = Tri::new(hex(5, 5));
    assert_eq!(vec![hex(5, 5), hex(5, 4), hex(4, 5)], t.hexes());
}

#[test]
fn chain_iter() {
    let t1 = Tri::new(hex(1, 1));
    let t2 = Tri::new(hex(10, 10));
    let mut joined = t1.hexes();
    joined.extend(t2.hexes());
    assert_eq!(6, joined.len());
}

#[test]
fn tri_chain_no_overlap() {
    let t1 = Tri::new(hex(1, 1));
    let t2 = Tri::new(hex(10, 10));
    assert_eq!(3, t1.area());
    let mut joined = t1.hexes();
    joined.extend(t2.hexes());
    for i in 0..joined.len() {
        for j in 0..joined.len() {
            if i != j {
                assert_ne!(joined[i], joined[j]);
            }
        }
    }
}

#[test]
fn tri_index_lookups() {
    let t = Tri::new(hex(5, 5));
    assert_eq!(Some(hex(5, 5)), t.hex_by_ind(0));
    assert_eq!(Some(hex(5, 4)), t.hex_by_ind(1));
    assert_eq!(Some(hex(4, 5)), t.hex_by_ind(2));
    assert_eq!(None, t.hex_by_ind(3));
    assert_eq!(Some(0), t.ind_by_hex(hex(5, 5)));
    assert_eq!(Some(2), t.ind_by_hex(hex(4, 5)));
    assert_eq!(None, t.ind_by_hex(hex(6, 6)));
    assert!(t.contains(hex(5, 4)));
    assert!(!t.contains(hex(5, 6)));
}

#[test]
fn tri_all_neighbors_ring() {
    let t = Tri::new(hex(0, 0));
    let want = vec![
        hex(1, 0),
        hex(1, -1),
        hex(1, -2),
        hex(0, -2),
        hex(-1, -1),
        hex(-2, 0),
        hex(-2, 1),
        hex(-1, 1),
        hex(0, 1),
    ];
    assert_eq!(want, t.all_neighbors());
}

#[test]
fn tri_ring_is_adjacent_but_outside() {
    let t = Tri::new(hex(0, 0));
    let members = t.hexes();
    for n in t.all_neighbors() {
        assert!(!t.contains(n));
        assert!(members.iter().any(|m| m.distance(n) == 1));
    }
}

#[test]
fn tri_direction_neighbors_pairs() {
    let t = Tri::new(hex(0, 0));
    // BotRight (index 0): the right and anchor members step down-right.
    assert_eq!(vec![hex(-1, 1), hex(0, 1)], t.direction_neighbors(HexDir::BotRight));
    // TopLeft (index 3): the anchor and upper members step up-left.
    assert_eq!(vec![hex(0, -1), hex(0, -2)], t.direction_neighbors(HexDir::TopLeft));
    // Left (index 4): the upper and left members step left.
    assert_eq!(vec![hex(-1, -1), hex(-2, 0)], t.direction_neighbors(HexDir::Left));
}

#[test]
fn tri_nearest_center_snaps() {
    let t = Tri::new(hex(0, 0));
    let f = FracHex::from_hex(hex(0, 0));
    assert_eq!(hex(1, 0), t.nearest_center(f));
}

#[test]
fn hex_by_ind() {
    let r = Rect::new(hex(0, 0), 3, 3);
    assert_eq!(r.hex_by_ind(0), Some(hex(0, 0)));
    assert_eq!(r.hex_by_ind(5), Some(hex(2, 1)));
    assert_eq!(r.hex_by_ind(8), Some(hex(1, 2)));
}

#[test]
fn rect_index_bijection() {
    for r in [
        Rect::new(hex(0, 0), 3, 3),
        Rect::new(hex(-5, -7), 4, 6),
        Rect::new(hex(2, 1), 1, 9),
    ] {
        for i in 0..r.area() {
            let h = r.hex_by_ind(i).unwrap();
            assert_eq!(Some(i), r.ind_by_hex(h));
            assert!(r.contains(h));
        }
        assert_eq!(None, r.hex_by_ind(r.area()));
    }
}

#[test]
fn rect_center_move_roundtrip() {
    let r = Rect::new(hex(-3, 2), 5, 4);
    let moved = r.move_to(r.center());
    assert_eq!(r, moved);
    let elsewhere = r.move_to(hex(10, 10));
    assert_eq!(hex(10, 10), elsewhere.center());
}

#[test]
fn rect_hexes_in_index_order() {
    let r = Rect::new(hex(0, 0), 3, 3);
    let all = r.hexes();
    assert_eq!(9, all.len());
    for (i, h) in all.iter().enumerate() {
        assert_eq!(Some(*h), r.hex_by_ind(i));
    }
}

#[test]
fn line_center() {
    let l = Line::new(hex(1, 0), hex(5, 0));
    assert_eq!(l.area(), 4);
}

#[test]
fn line_axis_q() {
    let l = Line::new(hex(2, -1), hex(2, 3));
    assert_eq!(4, l.area());
    for i in 0..4 {
        assert_eq!(Some(hex(2, -1 + i as i32)), l.hex_by_ind(i));
    }
    assert_eq!(None, l.hex_by_ind(4));
}

#[test]
fn line_axis_s() {
    // Both endpoints have s == -1: a constant-s line steps q up, r down.
    let l = Line::new(hex(0, 1), hex(3, -2));
    assert_eq!(3, l.area());
    assert_eq!(Some(hex(0, 1)), l.hex_by_ind(0));
    assert_eq!(Some(hex(1, 0)), l.hex_by_ind(1));
    assert_eq!(Some(hex(2, -1)), l.hex_by_ind(2));
}

#[test]
fn line_axis_matches_generic_sampling() {
    for (a, b) in [
        (hex(0, -2), hex(0, 3)),
        (hex(-3, 1), hex(2, 1)),
        (hex(0, 1), hex(3, -2)),
    ] {
        let l = Line::new(a, b);
        for i in 0..l.area() {
            assert_eq!(Some(a.nlerp(b, i)), l.hex_by_ind(i));
        }
    }
}

#[test]
fn line_generic_diagonal() {
    let a = hex(-2, -1);
    let b = hex(-1, 1);
    let l = Line::new(a, b);
    assert_eq!(3, l.area());
    let pts = a.line_vec(b);
    for i in 0..3 {
        assert_eq!(Some(pts[i]), l.hex_by_ind(i));
    }
}

#[test]
fn line_reverse_lookup() {
    let l = Line::new(hex(1, 0), hex(5, 0));
    for i in 0..l.area() {
        let h = l.hex_by_ind(i).unwrap();
        assert_eq!(Some(i), l.ind_by_hex(h));
        assert!(l.contains(h));
    }
    // The end hex itself is not covered.
    assert_eq!(None, l.ind_by_hex(hex(5, 0)));
    assert!(!l.contains(hex(5, 0)));
    assert!(!l.contains(hex(1, 1)));
}

#[test]
fn line_reverse_lookup_diagonal() {
    let l = Line::new(hex(-2, -1), hex(-1, 1));
    assert_eq!(Some(1), l.ind_by_hex(hex(-2, 0)));
    assert!(l.contains(hex(-2, -1)));
    assert!(!l.contains(hex(-1, 1)));
}

#[test]
fn line_move_translates_both_ends() {
    let l = Line::new(hex(1, 0), hex(5, 0));
    let m = l.move_to(hex(0, 2));
    assert_eq!(hex(0, 2), m.center());
    assert_eq!(4, m.area());
    assert_eq!(Some(hex(3, 2)), m.hex_by_ind(3));
}

#[test]
fn point_shape_ops() {
    let p = Point::new(hex(4, -2));
    assert_eq!(1, p.area());
    assert_eq!(hex(4, -2), p.center());
    assert_eq!(vec![hex(4, -2)], p.hexes());
    assert_eq!(Some(hex(4, -2)), p.hex_by_ind(0));
    assert_eq!(None, p.hex_by_ind(1));
    assert_eq!(Some(0), p.ind_by_hex(hex(4, -2)));
    assert_eq!(None, p.ind_by_hex(hex(0, 0)));
    assert!(p.contains(hex(4, -2)));
    assert_eq!(hex(0, 0), p.move_to(hex(0, 0)).center());
    assert_eq!(6, p.all_neighbors().len());
    assert_eq!(vec![hex(5, -2)], p.direction_neighbors(HexDir::Right));
    assert_eq!(hex(1, 0), p.nearest_center(FracHex::new(1, 1, 2).unwrap()));
}

#[test]
fn shape_dispatch_matches_variants() {
    let shapes = [
        Shape::Single(Point::new(hex(1, 1))),
        Shape::Triangle(Tri::new(hex(3, 3))),
        Shape::Rect(Rect::new(hex(0, 0), 3, 3)),
        Shape::Line(Line::new(hex(1, 0), hex(5, 0))),
    ];
    for s in shapes {
        let all = s.hexes();
        assert_eq!(s.area(), all.len());
        for (i, h) in all.iter().enumerate() {
            assert_eq!(Some(*h), s.hex_by_ind(i));
            assert_eq!(s.contains(*h), s.ind_by_hex(*h).is_some());
            if let Some(back) = s.ind_by_hex(*h) {
                assert_eq!(i, back);
            }
        }
        assert_eq!(None, s.hex_by_ind(all.len()));
    }
}

#[test]
fn shape_move_keeps_kind_and_center() {
    let s = Shape::Rect(Rect::new(hex(0, 0), 3, 3));
    let m = s.move_to(hex(7, 7));
    assert_eq!(hex(7, 7), m.center());
    assert_eq!(9, m.area());
    let t = Shape::Triangle(Tri::new(hex(0, 0))).move_to(hex(2, 2));
    assert_eq!(vec![hex(2, 2), hex(2, 1), hex(1, 2)], t.hexes());
}

#[test]
fn shape_overlap_shared_tiles() {
    let t = Shape::Triangle(Tri::new(hex(1, 1)));
    let r = Shape::Rect(Rect::new(hex(0, 0), 3, 3));
    // Every triangle member lies inside the rectangle, in triangle order.
    assert_eq!(vec![hex(1, 1), hex(1, 0), hex(0, 1)], t.overlap_iter(&r));
    assert!(t.overlaps(&r));
    // Only part of the rectangle lies inside the triangle.
    assert_eq!(vec![hex(1, 0), hex(0, 1), hex(1, 1)], r.overlap_iter(&t));

    let far = Shape::Single(Point::new(hex(50, 50)));
    assert!(!t.overlaps(&far));
    assert_eq!(Vec::<hexgrid::hex::Hex>::new(), t.overlap_iter(&far));

    // A line shares exactly the tiles it covers.
    let l = Shape::Line(Line::new(hex(0, 0), hex(5, 0)));
    assert!(t.overlaps(&l));
    assert_eq!(vec![hex(1, 0)], t.overlap_iter(&l));
}

#[test]
fn shape_combined_grid() {
    // The combined demo shape: one single hex plus one triangle.
    let p = Shape::Single(Point::new(hex(1, 1)));
    let t = Shape::Triangle(Tri::new(hex(3, 3)));
    let mut all = p.hexes();
    all.extend(t.hexes());
    assert_eq!(vec![hex(1, 1), hex(3, 3), hex(3, 2), hex(2, 3)], all);
}
