//! The numeric substrate: fixed-point helpers, points, matrices, the
//! transform stack, and the raw frame batch.

use p5::fixed::{isqrt, wide_mul};
use p5::glapp::Batch;
use p5::matrix::Matrix;
use p5::point::Point;
use p5::transformation::TransformStack;
use p5::utils::{bounding_box, have_anticlockwise_winding, index, map_i64};
use p5::SCALE;

const S: i64 = SCALE;

#[test]
fn integer_square_root_is_exact_floor() {
    assert_eq!(isqrt(0), 0);
    assert_eq!(isqrt(1), 1);
    assert_eq!(isqrt(16), 4);
    assert_eq!(isqrt(17), 4);
    assert_eq!(isqrt(24), 4);
    assert_eq!(isqrt(25), 5);
    assert_eq!(isqrt((150 * S as u128) * (150 * S as u128)), (150 * S) as u64);
}

#[test]
fn wide_products_are_exact() {
    assert_eq!(wide_mul(1 << 40, 1 << 40), 1i128 << 80);
    assert_eq!(wide_mul(-3, 7), -21);
}

#[test]
fn point_magnitude_and_rescaling() {
    let p = Point::new(3 * S, 4 * S, 0);
    assert_eq!(p.mag(), 5 * S);
    let mut q = Point::new(300, 400, 0);
    q.setMag(10);
    assert_eq!((q.x, q.y, q.z), (6, 8, 0));
    let mut zero = Point::new(0, 0, 0);
    zero.setMag(10);
    assert_eq!((zero.x, zero.y, zero.z), (0, 0, 0));
    let mut unit = Point::new(150 * S, 0, 0);
    unit.normalize();
    assert_eq!((unit.x, unit.y, unit.z), (S, 0, 0));
    let sum = Point::new(1, 2, 3).add(&Point::new(10, 20, 30));
    assert_eq!((sum.x, sum.y, sum.z), (11, 22, 33));
}

#[test]
fn map_interpolates_and_handles_degenerate_band() {
    assert_eq!(map_i64(5, 0, 10, 0, 100), 50);
    assert_eq!(map_i64(0, -10, 10, 0, S), S / 2);
    assert_eq!(map_i64(10, 10, 10, 42, 1000), 42);
    assert_eq!(map_i64(10, 20, 0, 0, 100), 50);
}

#[test]
fn winding_test_matches_cross_product_sign() {
    let o = Point::new(0, 0, 0);
    let x = Point::new(S, 0, 0);
    let y = Point::new(0, S, 0);
    assert!(have_anticlockwise_winding(&o, &x, &y));
    assert!(!have_anticlockwise_winding(&o, &y, &x));
    // collinear points are not anti-clockwise
    assert!(!have_anticlockwise_winding(&o, &x, &Point::new(2 * S, 0, 0)));
}

#[test]
fn bounding_box_finds_extremes() {
    let pts = vec![
        Point::new(-50, -50, 0),
        Point::new(0, 43, 0),
        Point::new(50, -50, 0),
    ];
    let (left, top, right, bottom) = bounding_box(&pts);
    assert_eq!((left, top, right, bottom), (-50, 43, 50, -50));
}

#[test]
fn column_major_index() {
    assert_eq!(index(0, 0, 4), 0);
    assert_eq!(index(3, 2, 4), 14);
}

#[test]
fn identity_matrix_leaves_points_alone() {
    let m = Matrix::identity(4, 4);
    let entries = m.as_vec();
    for col in 0..4usize {
        for row in 0..4usize {
            let expected = if col == row { S } else { 0 };
            assert_eq!(entries[col * 4 + row], expected);
        }
    }
    let p = Point::new(7 * S, -3 * S, S);
    let q = m.transform_point(&p);
    assert_eq!((q.x, q.y, q.z), (p.x, p.y, p.z));
}

#[test]
fn matrix_product_composes_translations() {
    let mut m = Matrix::translation(Point::new(10 * S, 0, 0));
    let n = Matrix::translation(Point::new(0, 5 * S, 0));
    m.mul(&n);
    let q = m.transform_point(&Point::new(0, 0, 0));
    assert_eq!((q.x, q.y, q.z), (10 * S, 5 * S, 0));
}

#[test]
fn mismatched_dimensions_leave_matrix_unchanged() {
    let mut m = Matrix::identity(4, 4);
    let n = Matrix::identity(3, 3);
    let before = m.as_vec();
    m.mul(&n);
    assert_eq!(m.as_vec(), before);
    assert!(!m.out_of_bounds(3, 3));
    assert!(m.out_of_bounds(4, 0));
}

#[test]
fn stack_rotation_turns_quarter_circle() {
    let mut stack = TransformStack::new();
    // a quarter turn about z: sine one, cosine zero, in fixed point
    stack.rotateZ(S, 0);
    let q = stack.current().transform_point(&Point::new(5 * S, 0, 0));
    assert_eq!((q.x, q.y, q.z), (0, 5 * S, 0));
    let mut stack2 = TransformStack::new();
    stack2.rotate(S, 0);
    let q2 = stack2.current().transform_point(&Point::new(5 * S, 0, 0));
    assert_eq!((q2.x, q2.y), (q.x, q.y));
}

#[test]
fn stack_scale_and_shear() {
    let mut stack = TransformStack::new();
    stack.scale(Point::new(2 * S, 3 * S, S));
    let q = stack.current().transform_point(&Point::new(S, S, S));
    assert_eq!((q.x, q.y, q.z), (2 * S, 3 * S, S));
    let mut m = Matrix::identity(4, 4);
    m.shearX(S);
    let sheared = m.transform_point(&Point::new(0, S, 0));
    assert_eq!((sheared.x, sheared.y), (S, S));
    let mut my = Matrix::identity(4, 4);
    my.shearY(S);
    let sheared_y = my.transform_point(&Point::new(S, 0, 0));
    assert_eq!((sheared_y.x, sheared_y.y), (S, S));
}

#[test]
fn stack_reset_restores_single_identity() {
    let mut stack = TransformStack::new();
    stack.pushMatrix();
    stack.translate(Point::new(S, S, 0));
    stack.reset();
    assert_eq!(stack.getTransformations().len(), 1);
    let q = stack.current().transform_point(&Point::new(S, 2 * S, 3 * S));
    assert_eq!((q.x, q.y, q.z), (S, 2 * S, 3 * S));
}

#[test]
fn rotations_about_x_and_y_axes() {
    let mut mx = Matrix::identity(4, 4);
    mx.rotateX(S, 0);
    let q = mx.transform_point(&Point::new(0, S, 0));
    assert_eq!((q.x, q.y, q.z), (0, 0, S));
    let mut my = Matrix::identity(4, 4);
    my.rotateY(S, 0);
    let r = my.transform_point(&Point::new(S, 0, 0));
    assert_eq!((r.x, r.y, r.z), (0, 0, -S));
}

#[test]
fn batch_stitches_strips_with_degenerate_indices() {
    let mut batch = Batch::new();
    let first_vertices = vec![1; 27];
    let first_indices = vec![0u32, 1, 2];
    batch.append_data(&first_vertices, &first_indices);
    assert_eq!(batch.indices, vec![0, 1, 2]);
    let second_vertices = vec![2; 36];
    let second_indices = vec![0u32, 1, 2, 3];
    batch.append_data(&second_vertices, &second_indices);
    // repeat of the last index, repeat of the rebased first, then the rest
    assert_eq!(batch.indices, vec![0, 1, 2, 2, 3, 3, 4, 5, 6]);
    assert_eq!(batch.vertices.len(), 63);

    batch.append_shape(7, 1);
    batch.append_shape(7, 2);
    assert_eq!(batch.shapes[0].index_byte_offset, 0);
    assert_eq!(batch.shapes[1].index_byte_offset, 12);
    assert_eq!(batch.index_bytes_offset, 12 + 16);

    let ((vertices, indices), shapes) = batch.drain();
    assert_eq!(vertices.len(), 63);
    assert_eq!(indices.len(), 9);
    assert_eq!(shapes.len(), 2);
    assert_eq!(batch.vertices.len(), 0);
    assert_eq!(batch.indices.len(), 0);
    assert_eq!(batch.shapes.len(), 0);
    assert_eq!(batch.index_bytes_offset, 0);
}
