use spritec::math::Mat4;

fn diag(a: i64, b: i64, c: i64, d: i64) -> Mat4 {
    let mut m = Mat4::identity();
    m.e00 = a;
    m.e11 = b;
    m.e22 = c;
    m.e33 = d;
    m
}

/// A translation by (x, y, z) in homogeneous coordinates.
fn translation(x: i64, y: i64, z: i64) -> Mat4 {
    let mut m = Mat4::identity();
    m.e03 = x;
    m.e13 = y;
    m.e23 = z;
    m
}

#[test]
fn identity_is_neutral_for_multiplication() {
    let t = translation(3, -4, 5);
    assert_eq!(Mat4::identity().mul(&t), t);
    assert_eq!(t.mul(&Mat4::identity()), t);
}

#[test]
fn translations_compose_by_adding_offsets() {
    let a = translation(1, 2, 3);
    let b = translation(10, 20, 30);
    assert_eq!(a.mul(&b), translation(11, 22, 33));
}

#[test]
fn determinant_of_a_diagonal_matrix_is_the_product() {
    assert_eq!(Mat4::identity().det(), 1);
    assert_eq!(diag(2, 3, 5, 7).det(), 210);
    assert_eq!(diag(2, 0, 5, 7).det(), 0);
}

#[test]
fn inverse_of_identity_is_identity_over_one() {
    let inv = Mat4::identity().inverted();
    assert_eq!(inv.mat, Mat4::identity());
    assert_eq!(inv.den, 1);
}

#[test]
fn inverse_of_a_diagonal_matrix_is_the_adjugate_over_the_determinant() {
    // diag(2,2,2,1): determinant 8, adjugate diag(4,4,4,8), so the
    // inverse is diag(4,4,4,8)/8 = diag(1/2, 1/2, 1/2, 1).
    let inv = diag(2, 2, 2, 1).inverted();
    assert_eq!(inv.den, 8);
    assert_eq!(inv.mat, diag(4, 4, 4, 8));
}

#[test]
fn inverse_of_a_translation_negates_the_offsets() {
    // A translation has determinant 1, so the adjugate is the exact
    // inverse: the opposite translation.
    let inv = translation(3, -4, 5).inverted();
    assert_eq!(inv.den, 1);
    assert_eq!(inv.mat, translation(-3, 4, -5));
    assert_eq!(translation(3, -4, 5).mul(&inv.mat), Mat4::identity());
}
