//! Scenario checks on the axial coordinate operations.

use hexgrid::hex::hex;

#[test]
fn hex_hex_add() {
    assert_eq!(hex(5, 3), hex(2, 1).add(hex(3, 2)))
}

#[test]
fn hex_hex_sub() {
    assert_eq!(hex(5, 3), hex(-1, -2).sub(hex(-6, -5)))
}

#[test]
fn hex_hex_mul() {
    assert_eq!(hex(20, 30), hex(2, 3).scale(10));
}

#[test]
fn hex_hex_len() {
    assert_eq!(5, hex(2, 3).length())
}

#[test]
fn hex_hex_dist() {
    assert_eq!(5, hex(-3, 1).distance(hex(2, -1)));
}

#[test]
fn hex_hex_line() {
    let want = [hex(-2, -1), hex(-2, 0), hex(-1, 0), hex(-1, 1)];
    let mut got = vec![hex(0, 0); 4];
    hex(-2, -1).line(hex(-1, 1), &mut got);
    assert_eq!(&want.to_vec(), &got);
}
