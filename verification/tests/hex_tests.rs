use hexgrid::frac::FracHex;
use hexgrid::hex::{hex, Hex, HexDir};

#[test]
fn hex_add() {
    assert_eq!(hex(5, 3), hex(2, 1).add(hex(3, 2)))
}

#[test]
fn hex_sub() {
    assert_eq!(hex(5, 3), hex(-1, -2).sub(hex(-6, -5)))
}

#[test]
fn hex_mul() {
    assert_eq!(hex(20, 30), hex(2, 3).scale(10));
}

#[test]
fn hex_len() {
    assert_eq!(5, hex(2, 3).length())
}

#[test]
fn hex_dist() {
    assert_eq!(5, hex(-3, 1).distance(hex(2, -1)));
}

#[test]
fn hex_line() {
    let want = [hex(-2, -1), hex(-2, 0), hex(-1, 0), hex(-1, 1)];
    let mut got = vec![hex(0, 0); 4];
    hex(-2, -1).line(hex(-1, 1), &mut got);
    assert_eq!(&want.to_vec(), &got);
}

#[test]
fn hex_line_vec_matches_line() {
    let got = hex(-2, -1).line_vec(hex(-1, 1));
    assert_eq!(vec![hex(-2, -1), hex(-2, 0), hex(-1, 0), hex(-1, 1)], got);
}

#[test]
fn hex_line_keeps_buffer_tail() {
    let sentinel = hex(77, 77);
    let mut got = vec![sentinel; 6];
    let dist = hex(0, 0).line(hex(2, 0), &mut got);
    assert_eq!(2, dist);
    assert_eq!(vec![hex(0, 0), hex(1, 0), hex(2, 0), sentinel, sentinel, sentinel], got);
}

#[test]
fn hex_add_sub_cancel() {
    let cases = [
        (hex(0, 0), hex(0, 0)),
        (hex(3, -7), hex(11, 5)),
        (hex(-4, 9), hex(-1, -1)),
    ];
    for (a, b) in cases {
        assert_eq!(a, a.add(b).sub(b));
    }
}

#[test]
fn hex_distance_symmetric_and_zero() {
    let cases = [
        (hex(0, 0), hex(0, 0)),
        (hex(-3, 1), hex(2, -1)),
        (hex(5, 5), hex(-5, -5)),
    ];
    for (a, b) in cases {
        assert_eq!(a.distance(b), b.distance(a));
        assert_eq!(0, a.distance(a));
    }
}

#[test]
fn hex_s_axis_derived() {
    assert_eq!(-5, hex(2, 3).s());
    assert_eq!(0, hex(0, 0).s());
    assert_eq!(2, hex(-3, 1).s());
}

#[test]
fn hex_neighbors_canonical_order() {
    let n = hex(0, 0).neighbors();
    assert_eq!(
        vec![hex(0, 1), hex(1, 0), hex(1, -1), hex(0, -1), hex(-1, 0), hex(-1, 1)],
        n
    );
}

#[test]
fn hex_neighbor_single_step() {
    assert_eq!(hex(3, 4), hex(2, 4).neighbor(HexDir::Right));
    assert_eq!(hex(2, 5), hex(2, 4).neighbor(HexDir::BotRight));
}

#[test]
fn dir_index_roundtrip() {
    for i in 0..6usize {
        let d = HexDir::from_ind(i);
        assert_eq!(i, d.to_ind());
    }
    assert_eq!(hex(0, 1), Hex::direction(0));
    assert_eq!(hex(-1, 1), Hex::direction(5));
}

#[test]
fn hex_hash_packs_components() {
    assert_eq!((1u64 << 32) | 2, hex(1, 2).hash());
    // A negative row sign-extends into the upper half: the documented
    // packing quirk.
    assert_eq!(u64::MAX, hex(0, -1).hash());
}

#[test]
fn frac_round_trip() {
    for h in [hex(0, 0), hex(5, 5), hex(-17, 3), hex(1000, -999)] {
        assert_eq!(h, FracHex::from_hex(h).round());
    }
}

#[test]
fn frac_round_tie_break() {
    // (0.5, 0.5): the r residue wins the tie order, so r is recomputed.
    let f = FracHex::new(1, 1, 2).unwrap();
    assert_eq!(hex(1, 0), f.round());
    // (-0.5, -0.5): both components round away from zero to -1, and no
    // residue wins strictly, so both rounded components are kept.
    let g = FracHex::new(-1, -1, 2).unwrap();
    assert_eq!(hex(-1, -1), g.round());
}

#[test]
fn frac_new_rejects_bad_denominator() {
    assert!(FracHex::new(1, 1, 0).is_none());
    assert!(FracHex::new(1, 1, -3).is_none());
    assert!(FracHex::new(1, 1, 0x8000_0001).is_none());
    assert!(FracHex::new(3_000_000, 0, 1).is_none());
    assert!(FracHex::new(1, 1, 2).is_some());
}

#[test]
fn frac_lerp_midpoint() {
    let mid = hex(0, 0).lerp(hex(2, 4), 1, 2);
    assert_eq!((2, 4, 2), mid.parts());
    assert_eq!(hex(1, 2), mid.round());
}

#[test]
fn frac_s_numerator_derived() {
    let f = FracHex::new(3, -1, 4).unwrap();
    assert_eq!(-2, f.s_num());
    assert_eq!((3, -1, 4), f.parts());
}

#[test]
fn frac_round_plus_half() {
    // (0, 0) shifted by (1/2, 1/2) rounds like (0.5, 0.5).
    let f = FracHex::from_hex(hex(0, 0));
    assert_eq!(hex(1, 0), f.round_plus_half());
}

#[test]
fn nlerp_samples_diagonal() {
    let a = hex(-2, -1);
    let b = hex(-1, 1);
    let line = a.line_vec(b);
    for (i, want) in line.iter().enumerate() {
        assert_eq!(*want, a.nlerp(b, i));
    }
}
