//! End-to-end drawing scenarios, checked against exact expected values.

use p5::canvas::Canvas;
use p5::color::{Color, CHANNEL_MAX};
use p5::command::Command;
use p5::point::Point;
use p5::SCALE;

const S: i64 = SCALE;

/// One expected vertex in the flat layout.
fn block(x: i64, y: i64, z: i64, u: i64, v: i64, c: (u32, u32, u32, u32)) -> Vec<i64> {
    vec![x, y, z, u, v, c.0 as i64, c.1 as i64, c.2 as i64, c.3 as i64]
}

fn quarter_samples(n_segments: u32) -> Vec<(i64, i64)> {
    let q = if n_segments % 4 == 0 {
        (n_segments - 4) / 4
    } else {
        (n_segments - 2) / 4
    };
    let mut samples = Vec::new();
    for i in 1..=q {
        let theta = -std::f64::consts::FRAC_PI_2
            + (i as f64) * (2.0 * std::f64::consts::PI / (n_segments as f64));
        samples.push((
            (theta.sin() * 65536.0).round() as i64,
            (theta.cos() * 65536.0).round() as i64,
        ));
    }
    samples
}

#[test]
fn rect_identity_corners_and_uvs() {
    let mut canvas = Canvas::new(8);
    canvas.rect(Point::new(-50 * S, 50 * S, 0), Point::new(50 * S, -50 * S, 0));
    assert_eq!(canvas.queue.len(), 2);
    let fill = (0u32, CHANNEL_MAX, 0u32, CHANNEL_MAX);
    match &canvas.queue[0] {
        Command::CreateObject { id, descriptor } => {
            assert_eq!(*id, 0);
            let mut expected: Vec<i64> = Vec::new();
            expected.extend(block(-50 * S, 50 * S, 0, 0, S, fill)); // top left
            expected.extend(block(-50 * S, -50 * S, 0, 0, 0, fill)); // bottom left
            expected.extend(block(50 * S, 50 * S, 0, S, S, fill)); // top right
            expected.extend(block(50 * S, -50 * S, 0, S, 0, fill)); // bottom right
            assert_eq!(descriptor.vertex_data, expected);
            assert_eq!(descriptor.index_data, vec![0u32, 1, 2, 3]);
            assert!(descriptor.vertex_shader.is_none());
            assert!(descriptor.fragment_shader.is_none());
            assert!(!descriptor.is_stroke);
        }
        other => panic!("expected a creation command, got {:?}", other),
    }
    match &canvas.queue[1] {
        Command::DrawObject { id } => assert_eq!(*id, 0),
        other => panic!("expected a draw command, got {:?}", other),
    }
}

#[test]
fn ellipse_sixty_four_distinct_points_within_radius() {
    let samples = quarter_samples(64);
    assert_eq!(samples.len(), 15);
    let mut canvas = Canvas::new(8);
    canvas.ellipse(Point::new(0, 0, 0), 200 * S, 100 * S, &samples);
    let descriptor = match &canvas.queue[0] {
        Command::CreateObject { descriptor, .. } => descriptor,
        other => panic!("expected a creation command, got {:?}", other),
    };
    assert_eq!(descriptor.vertex_data.len(), 9 * 64);
    let mut points: Vec<(i64, i64)> = Vec::new();
    for k in 0..64 {
        points.push((descriptor.vertex_data[9 * k], descriptor.vertex_data[9 * k + 1]));
    }
    // first sample at angle -pi/2: the left extreme; last at +pi/2: the right.
    assert_eq!(points[0], (-100 * S, 0));
    assert_eq!(points[63], (100 * S, 0));
    // all within the larger half-axis of the ellipse
    let a = 100 * S as i128;
    for &(x, y) in &points {
        let d2 = (x as i128) * (x as i128) + (y as i128) * (y as i128);
        assert!(d2 <= a * a, "point ({}, {}) outside radius", x, y);
    }
    // all distinct
    let mut sorted = points.clone();
    sorted.sort();
    sorted.dedup();
    assert_eq!(sorted.len(), 64);
}

#[test]
fn repeated_triangle_creates_once_draws_twice() {
    let mut canvas = Canvas::new(8);
    let p1 = Point::new(-50 * S, -50 * S, 0);
    let p2 = Point::new(0, 43 * S, 0);
    let p3 = Point::new(50 * S, -50 * S, 0);
    canvas.triangle(p1, p2, p3);
    canvas.triangle(p1, p2, p3);
    assert_eq!(canvas.queue.len(), 3);
    let first_id = match &canvas.queue[0] {
        Command::CreateObject { id, .. } => *id,
        other => panic!("expected a creation command, got {:?}", other),
    };
    match &canvas.queue[1] {
        Command::DrawObject { id } => assert_eq!(*id, first_id),
        other => panic!("expected a draw command, got {:?}", other),
    }
    match &canvas.queue[2] {
        Command::DrawObject { id } => assert_eq!(*id, first_id),
        other => panic!("expected a draw command, got {:?}", other),
    }
    let creations = canvas
        .queue
        .iter()
        .filter(|c| matches!(c, Command::CreateObject { .. }))
        .count();
    assert_eq!(creations, 1);
}

#[test]
fn heavy_line_is_quad_of_full_stroke_thickness() {
    let samples = quarter_samples(16);
    let mut canvas = Canvas::new(8);
    canvas.stroke_weight(10);
    canvas.line(Point::new(-75 * S, 0, 0), Point::new(75 * S, 0, 0), &samples);
    let stroke = (0u32, 0u32, 0u32, CHANNEL_MAX);
    let descriptor = match &canvas.queue[0] {
        Command::CreateObject { descriptor, .. } => descriptor,
        other => panic!("expected a creation command, got {:?}", other),
    };
    // perpendicular offset of ceil(10 / 2) = 5 units on each side
    let mut expected: Vec<i64> = Vec::new();
    expected.extend(block(-75 * S, 5 * S, 0, 0, S, stroke));
    expected.extend(block(-75 * S, -5 * S, 0, 0, 0, stroke));
    expected.extend(block(75 * S, 5 * S, 0, S, S, stroke));
    expected.extend(block(75 * S, -5 * S, 0, S, 0, stroke));
    assert_eq!(descriptor.vertex_data, expected);
    assert!(descriptor.is_stroke);
    // total thickness is the full stroke weight
    let top = descriptor.vertex_data[1];
    let bottom = descriptor.vertex_data[10];
    assert_eq!(top - bottom, 10 * S);
    // weight over the cap threshold: both end caps drawn as well
    let creations = canvas
        .queue
        .iter()
        .filter(|c| matches!(c, Command::CreateObject { .. }))
        .count();
    assert_eq!(creations, 3);
}

#[test]
fn thin_line_draws_no_caps() {
    let samples = quarter_samples(16);
    let mut canvas = Canvas::new(8);
    canvas.stroke_weight(2);
    canvas.line(Point::new(0, 0, 0), Point::new(10 * S, 0, 0), &samples);
    assert_eq!(canvas.queue.len(), 2);
    let creations = canvas
        .queue
        .iter()
        .filter(|c| matches!(c, Command::CreateObject { .. }))
        .count();
    assert_eq!(creations, 1);
}

#[test]
fn triangle_emits_anticlockwise_winding() {
    // the corners given clockwise: the builder must swap the first two
    let mut canvas = Canvas::new(8);
    let p1 = Point::new(0, 43 * S, 0);
    let p2 = Point::new(50 * S, -50 * S, 0);
    let p3 = Point::new(-50 * S, -50 * S, 0);
    canvas.triangle(p1, p2, p3);
    let descriptor = match &canvas.queue[0] {
        Command::CreateObject { descriptor, .. } => descriptor,
        other => panic!("expected a creation command, got {:?}", other),
    };
    let (x1, y1) = (descriptor.vertex_data[0], descriptor.vertex_data[1]);
    let (x2, y2) = (descriptor.vertex_data[9], descriptor.vertex_data[10]);
    let (x3, y3) = (descriptor.vertex_data[18], descriptor.vertex_data[19]);
    let area2 = (x2 as i128 - x1 as i128) * (y3 as i128 - y1 as i128)
        - (x3 as i128 - x1 as i128) * (y2 as i128 - y1 as i128);
    assert!(area2 >= 0, "emitted winding is clockwise");
    // and the first two corners were indeed swapped
    assert_eq!((x1, y1), (50 * S, -50 * S));
    assert_eq!((x2, y2), (0, 43 * S));
}

#[test]
fn cache_eviction_deletes_least_recently_used_exactly_once() {
    // capacity one: the second distinct shape evicts the first
    let mut canvas = Canvas::new(1);
    let a = (Point::new(0, 0, 0), Point::new(S, S, 0), Point::new(S, 0, 0));
    let b = (Point::new(0, 0, 0), Point::new(2 * S, 2 * S, 0), Point::new(2 * S, 0, 0));
    canvas.triangle(a.0, a.1, a.2);
    canvas.triangle(b.0, b.1, b.2);
    let deletes: Vec<u64> = canvas
        .queue
        .iter()
        .filter_map(|c| match c {
            Command::DeleteObject { id } => Some(*id),
            _ => None,
        })
        .collect();
    assert_eq!(deletes, vec![0]);
    // the surviving object is never deleted
    canvas.triangle(b.0, b.1, b.2);
    let deletes_after: Vec<u64> = canvas
        .queue
        .iter()
        .filter_map(|c| match c {
            Command::DeleteObject { id } => Some(*id),
            _ => None,
        })
        .collect();
    assert_eq!(deletes_after, vec![0]);
}

#[test]
fn matrix_stack_never_empties() {
    let mut canvas = Canvas::new(8);
    assert_eq!(canvas.getTransformations().len(), 1);
    canvas.pushMatrix();
    canvas.pushMatrix();
    assert_eq!(canvas.getTransformations().len(), 3);
    canvas.popMatrix();
    canvas.popMatrix();
    canvas.popMatrix();
    canvas.popMatrix();
    assert_eq!(canvas.getTransformations().len(), 1);
}

#[test]
fn translated_rect_moves_with_the_stack() {
    let mut canvas = Canvas::new(8);
    canvas.pushMatrix();
    canvas.translate(Point::new(10 * S, 20 * S, 0));
    canvas.rect(Point::new(0, S, 0), Point::new(S, 0, 0));
    let descriptor = match &canvas.queue[0] {
        Command::CreateObject { descriptor, .. } => descriptor,
        other => panic!("expected a creation command, got {:?}", other),
    };
    assert_eq!(descriptor.vertex_data[0], 10 * S);
    assert_eq!(descriptor.vertex_data[1], 21 * S);
    canvas.popMatrix();
    assert_eq!(canvas.getTransformations().len(), 1);
}

#[test]
fn changed_color_is_a_different_descriptor() {
    // bit-exact keying: the same geometry under another fill color is a miss
    let mut canvas = Canvas::new(8);
    let p1 = Point::new(0, 0, 0);
    let p2 = Point::new(S, S, 0);
    let p3 = Point::new(S, 0, 0);
    canvas.triangle(p1, p2, p3);
    canvas.fill(Color::rgb(CHANNEL_MAX, 0, 0));
    canvas.triangle(p1, p2, p3);
    let creations = canvas
        .queue
        .iter()
        .filter(|c| matches!(c, Command::CreateObject { .. }))
        .count();
    assert_eq!(creations, 2);
}

#[test]
fn pop_restores_transform_for_cache_hits() {
    // drawing, translating inside a push/pop pair, then drawing again
    // hits the cache: the restored transform reproduces the descriptor
    let mut canvas = Canvas::new(8);
    let p1 = Point::new(0, 0, 0);
    let p2 = Point::new(S, S, 0);
    let p3 = Point::new(S, 0, 0);
    canvas.triangle(p1, p2, p3);
    canvas.pushMatrix();
    canvas.translate(Point::new(7 * S, 0, 0));
    canvas.triangle(p1, p2, p3);
    canvas.popMatrix();
    canvas.triangle(p1, p2, p3);
    let creations = canvas
        .queue
        .iter()
        .filter(|c| matches!(c, Command::CreateObject { .. }))
        .count();
    assert_eq!(creations, 2);
    // the last draw was a plain draw of the first object
    match canvas.queue.last().unwrap() {
        Command::DrawObject { id } => assert_eq!(*id, 0),
        other => panic!("expected a draw command, got {:?}", other),
    }
}
