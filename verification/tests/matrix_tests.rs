use canvas_rs::matrix::Matrix;

#[test]
fn new_stores_coefficients() {
    let m = Matrix::new(2, 3, 4, 5, 6, 7);
    assert_eq!(m.a, 2);
    assert_eq!(m.b, 3);
    assert_eq!(m.c, 4);
    assert_eq!(m.d, 5);
    assert_eq!(m.e, 6);
    assert_eq!(m.f, 7);
}

#[test]
fn identity_coefficients() {
    assert_eq!(Matrix::identity(), Matrix::new(1, 0, 0, 1, 0, 0));
}

#[test]
fn identity_is_neutral_for_compose() {
    let t = Matrix::new(2, 3, 4, 5, 6, 7);
    assert_eq!(t.compose(Matrix::identity()), t);
    assert_eq!(Matrix::identity().compose(t), t);
}

#[test]
fn compose_is_associative() {
    let a = Matrix::new(2, 3, 4, 5, 6, 7);
    let b = Matrix::new(-1, 2, 0, 3, 10, -4);
    let c = Matrix::new(5, 0, -2, 1, 8, 9);
    assert_eq!(a.compose(b).compose(c), a.compose(b.compose(c)));
}

#[test]
fn compose_exact_product() {
    let m = Matrix::new(2, 3, 4, 5, 6, 7);
    let o = Matrix::new(1, 2, 3, 4, 5, 6);
    // a = 2*1 + 4*2, b = 3*1 + 5*2, c = 2*3 + 4*4, d = 3*3 + 5*4,
    // e = 2*5 + 4*6 + 6, f = 3*5 + 5*6 + 7
    assert_eq!(m.compose(o), Matrix::new(10, 13, 22, 29, 40, 52));
}

#[test]
fn identity_maps_points_to_themselves() {
    let id = Matrix::identity();
    assert_eq!(id.transform_point(0, 0), (0, 0));
    assert_eq!(id.transform_point(3, -9), (3, -9));
    assert_eq!(id.transform_point(-1000, 4096), (-1000, 4096));
}

#[test]
fn translate_then_map_origin() {
    let m = Matrix::identity().translate(5, 7);
    assert_eq!(m.transform_point(0, 0), (5, 7));
}

#[test]
fn scale_then_map_unit() {
    let m = Matrix::identity().scale(2, 3);
    assert_eq!(m.transform_point(1, 1), (2, 3));
}

#[test]
fn rotate_by_zero_is_identity() {
    // A zero angle has cosine 1 and sine 0.
    let m = Matrix::identity().rotate(1, 0);
    assert_eq!(m, Matrix::identity());
    assert_eq!(m.transform_point(12, -34), (12, -34));
    let t = Matrix::new(2, 3, 4, 5, 6, 7);
    assert_eq!(t.rotate(1, 0), t);
}

#[test]
fn rotate_quarter_turn_maps_x_axis_to_y_axis() {
    // A quarter turn has cosine 0 and sine 1; it sends (1, 0) to (0, 1).
    let m = Matrix::identity().rotate(0, 1);
    assert_eq!(m.transform_point(1, 0), (0, 1));
}

#[test]
fn translate_is_compose_with_translation() {
    let m = Matrix::new(2, 3, 4, 5, 6, 7);
    assert_eq!(m.translate(11, -2), m.compose(Matrix::new(1, 0, 0, 1, 11, -2)));
    // Offsets move in the transform's own basis, the linear part stays.
    assert_eq!(m.translate(11, -2), Matrix::new(2, 3, 4, 5, 6 + 11 * 2 - 2 * 4, 7 + 11 * 3 - 2 * 5));
}

#[test]
fn scale_is_compose_with_scaling() {
    let m = Matrix::new(2, 3, 4, 5, 6, 7);
    assert_eq!(m.scale(2, -3), m.compose(Matrix::new(2, 0, 0, -3, 0, 0)));
    // The offset is untouched by scaling.
    assert_eq!(m.scale(2, -3), Matrix::new(4, 6, -12, -15, 6, 7));
}

#[test]
fn rotate_is_compose_with_rotation() {
    let m = Matrix::new(2, 3, 4, 5, 6, 7);
    assert_eq!(m.rotate(0, 1), m.compose(Matrix::new(0, 1, -1, 0, 0, 0)));
    assert_eq!(m.rotate(0, 1), Matrix::new(4, 5, -2, -3, 6, 7));
}

#[test]
fn transform_point_formula() {
    let m = Matrix::new(2, 3, 4, 5, 6, 7);
    // (a*x + c*y + e, b*x + d*y + f) on (10, 100)
    assert_eq!(m.transform_point(10, 100), (2 * 10 + 4 * 100 + 6, 3 * 10 + 5 * 100 + 7));
}
