use avm1_matrix::matrix;
use avm1_matrix::matrix::{
    identity, invert, product_is_defined, rotate, scale, translate, Matrix, FIXED_ONE,
};

fn m(a: i32, b: i32, c: i32, d: i32, tx: i32, ty: i32) -> Matrix {
    Matrix { a, b, c, d, tx, ty }
}

fn via_swf(x: Matrix) -> swf::Matrix {
    swf::Matrix {
        a: swf::Fixed16::from_bits(x.a),
        b: swf::Fixed16::from_bits(x.b),
        c: swf::Fixed16::from_bits(x.c),
        d: swf::Fixed16::from_bits(x.d),
        tx: swf::Twips::new(x.tx),
        ty: swf::Twips::new(x.ty),
    }
}

#[test]
fn identity_is_the_unit_matrix() {
    assert_eq!(identity(), m(FIXED_ONE, 0, 0, FIXED_ONE, 0, 0));
}

#[test]
fn concat_with_identity_keeps_the_matrix() {
    let x = m(3 * FIXED_ONE / 2, -7, 12345, -FIXED_ONE, 400, -260);
    assert_eq!(matrix::concat(x, identity()), x);
    assert_eq!(matrix::concat(identity(), x), x);
}

#[test]
fn concat_applies_the_argument_after_this() {
    let doubled = m(2 * FIXED_ONE, 0, 0, 2 * FIXED_ONE, 0, 0);
    let moved = m(FIXED_ONE, 0, 0, FIXED_ONE, 20, 40);
    // Scale first, then move: the translation stays as given.
    assert_eq!(matrix::concat(doubled, moved), m(2 * FIXED_ONE, 0, 0, 2 * FIXED_ONE, 20, 40));
    // Move first, then scale: the translation is scaled too.
    assert_eq!(matrix::concat(moved, doubled), m(2 * FIXED_ONE, 0, 0, 2 * FIXED_ONE, 40, 80));
}

#[test]
fn concat_truncates_fixed_point_products() {
    // 1.5 * 1.5 = 2.25; a skew of -1/65536 times 1.5 rounds down to -2/65536.
    let this = m(3 * FIXED_ONE / 2, -1, 0, FIXED_ONE, 0, 0);
    let other = m(3 * FIXED_ONE / 2, 0, 0, 3 * FIXED_ONE / 2, 0, 0);
    let r = matrix::concat(this, other);
    assert_eq!(r.a, 9 * FIXED_ONE / 4);
    assert_eq!(r.b, -2);
    let expected = via_swf(other) * via_swf(this);
    assert_eq!(r.a, expected.a.get());
    assert_eq!(r.b, expected.b.get());
    assert_eq!(r.d, expected.d.get());
}

#[test]
fn scale_multiplies_each_row() {
    let x = m(FIXED_ONE, FIXED_ONE / 2, 3 * FIXED_ONE, -FIXED_ONE, 100, -30);
    let r = scale(x, 2 * FIXED_ONE, FIXED_ONE / 2);
    assert_eq!(r, m(2 * FIXED_ONE, FIXED_ONE / 4, 6 * FIXED_ONE, -FIXED_ONE / 2, 200, -15));
}

#[test]
fn scale_by_one_keeps_the_matrix() {
    let x = m(5, 6, 7, 8, 9, 10);
    assert_eq!(scale(x, FIXED_ONE, FIXED_ONE), x);
}

#[test]
fn translate_moves_only() {
    let x = m(2 * FIXED_ONE, 3, 4, 5, 100, 200);
    assert_eq!(translate(x, 20, -40), m(2 * FIXED_ONE, 3, 4, 5, 120, 160));
}

#[test]
fn translate_wraps_around() {
    let x = m(FIXED_ONE, 0, 0, FIXED_ONE, i32::MAX, i32::MIN);
    assert_eq!(translate(x, 1, -1), m(FIXED_ONE, 0, 0, FIXED_ONE, i32::MIN, i32::MAX));
}

#[test]
fn translations_add_up() {
    let x = m(3, 1, 4, 1, 5, 9);
    assert_eq!(translate(translate(x, 20, 60), -5, 7), translate(x, 15, 67));
}

#[test]
fn rotate_by_a_quarter_turn() {
    // The rotation matrix of a quarter turn: cos = 0, sin = 1.
    let quarter = m(0, FIXED_ONE, -FIXED_ONE, 0, 0, 0);
    let x = m(FIXED_ONE, 0, 0, FIXED_ONE, 20, 0);
    assert_eq!(rotate(x, quarter), m(0, FIXED_ONE, -FIXED_ONE, 0, 0, 20));
}

#[test]
fn invert_is_the_swf_inverse() {
    let x = m(2 * FIXED_ONE, 0, 0, 4 * FIXED_ONE, 40, -80);
    let r = invert(x);
    let mut expected = via_swf(x);
    expected.invert();
    assert_eq!(r.a, expected.a.get());
    assert_eq!(r.b, expected.b.get());
    assert_eq!(r.c, expected.c.get());
    assert_eq!(r.d, expected.d.get());
    assert_eq!(r.tx, expected.tx.get());
    assert_eq!(r.ty, expected.ty.get());
    assert_ne!(r, x);
    assert_eq!(r.a, FIXED_ONE / 2);
}

#[test]
fn product_overflow_is_detected() {
    let big = m(i32::MAX, 0, 0, i32::MAX, 0, 0);
    assert!(!product_is_defined(big, big));
    assert!(product_is_defined(identity(), big));
    assert!(product_is_defined(big, identity()));
    let skew = m(FIXED_ONE, 0, i32::MAX, FIXED_ONE, 0, 0);
    let lifted = m(FIXED_ONE, 0, 0, FIXED_ONE, 0, i32::MAX);
    // c * ty overflows in the translation.
    assert!(!product_is_defined(skew, lifted));
}

#[test]
fn invert_of_identity_is_identity() {
    assert_eq!(invert(identity()), identity());
}

#[test]
fn concat_is_associative_on_whole_matrices() {
    let w = |a: i32, b: i32, c: i32, d: i32, tx: i32, ty: i32| {
        m(a * FIXED_ONE, b * FIXED_ONE, c * FIXED_ONE, d * FIXED_ONE, tx, ty)
    };
    let base = m(FIXED_ONE / 3, 7, -FIXED_ONE * 2, 12345, 100, -60);
    let n = w(2, -1, 3, 4, 20, -40);
    let p = w(-3, 5, 1, 2, 60, 80);
    let left = matrix::concat(matrix::concat(base, n), p);
    let right = matrix::concat(base, matrix::concat(n, p));
    assert_eq!(left, right);
}

#[test]
fn concat_with_scale_or_move_matrix() {
    let x = m(FIXED_ONE, FIXED_ONE / 2, 3 * FIXED_ONE, -FIXED_ONE, 100, -30);
    let s = m(2 * FIXED_ONE, 0, 0, FIXED_ONE / 2, 0, 0);
    assert_eq!(matrix::concat(x, s), scale(x, 2 * FIXED_ONE, FIXED_ONE / 2));
    let t = m(FIXED_ONE, 0, 0, FIXED_ONE, 7, -9);
    assert_eq!(matrix::concat(x, t), translate(x, 7, -9));
}

#[test]
fn create_box_scales_rotates_then_moves() {
    let quarter = m(0, FIXED_ONE, -FIXED_ONE, 0, 0, 0);
    let b = matrix::create_box(2 * FIXED_ONE, 3 * FIXED_ONE, quarter, 20, 40);
    assert_eq!(b, m(0, 2 * FIXED_ONE, -3 * FIXED_ONE, 0, 20, 40));
}
