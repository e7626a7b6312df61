use shape_engine::coordinates::{max, min, Coordinates, MinMaxCoordinates};
use shape_engine::ops::{filter, mutate_circles_to_rectangles, occupation};
use shape_engine::shape::{Circle, Rectangle, ShapeKind};

fn circle(x: i64, y: i64, radius: i64, color: &str) -> ShapeKind {
    ShapeKind::Circle(Circle { x, y, color: color.to_string(), radius })
}

fn rectangle(x: i64, y: i64, width: i64, height: i64, color: &str) -> ShapeKind {
    ShapeKind::Rectangle(Rectangle { x, y, color: color.to_string(), width, height })
}

fn same_shape(a: &ShapeKind, b: &ShapeKind) -> bool {
    match (a, b) {
        (ShapeKind::Circle(p), ShapeKind::Circle(q)) => {
            p.x == q.x && p.y == q.y && p.color == q.color && p.radius == q.radius
        }
        (ShapeKind::Rectangle(p), ShapeKind::Rectangle(q)) => {
            p.x == q.x && p.y == q.y && p.color == q.color && p.width == q.width
                && p.height == q.height
        }
        _ => false,
    }
}

fn sample_scene() -> Vec<ShapeKind> {
    vec![
        circle(0, 0, 1, "red"),
        rectangle(2, 2, 2, 2, "green"),
        circle(-3, 4, 2, "blue"),
        rectangle(-5, -5, 1, 10, "yellow"),
        circle(7, -2, 3, "cyan"),
    ]
}

#[test]
fn occupation_example_scene() {
    let shapes = vec![circle(0, 0, 1, "red"), rectangle(2, 2, 2, 2, "green")];
    let res = occupation(shapes, 0).unwrap();
    assert_eq!(res.occupation, 25);
}

#[test]
fn occupation_same_for_every_thread_count() {
    let expected = occupation(sample_scene(), 0).unwrap().occupation;
    for threads in 0..6 {
        let res = occupation(sample_scene(), threads).unwrap();
        assert_eq!(res.occupation, expected);
    }
}

#[test]
fn occupation_empty_input_is_zero() {
    assert_eq!(occupation(Vec::new(), 0).unwrap().occupation, 0);
    assert_eq!(occupation(Vec::new(), 3).unwrap().occupation, 0);
}

#[test]
fn occupation_single_shape() {
    let shapes = vec![rectangle(1, 1, 3, 4, "green")];
    assert_eq!(occupation(shapes, 0).unwrap().occupation, 12);
}

#[test]
fn occupation_negative_radius_inverts_box() {
    for threads in [0, 2] {
        let shapes = vec![circle(0, 0, -1, "red")];
        assert_eq!(occupation(shapes, threads).unwrap().occupation, 4);
    }
}

#[test]
fn more_threads_than_shapes() {
    let shapes = vec![circle(0, 0, 1, "red"), rectangle(2, 2, 2, 2, "green")];
    let res = occupation(shapes.clone(), 9).unwrap();
    assert_eq!(res.occupation, 25);
    let res = mutate_circles_to_rectangles(shapes.clone(), 9).unwrap();
    assert_eq!(res.values.len(), 2);
    assert!(same_shape(&res.values[0], &rectangle(-1, -1, 2, 2, "red")));
    let res = filter(shapes, "rectangle".to_string(), 9).unwrap();
    assert_eq!(res.filtered.len(), 1);
}

#[test]
fn filter_keeps_matching_kind_in_order() {
    for threads in [0, 1, 3] {
        let res = filter(sample_scene(), "circle".to_string(), threads).unwrap();
        let colors: Vec<&str> = res
            .filtered
            .iter()
            .map(|s| match s {
                ShapeKind::Circle(c) => c.color.as_str(),
                ShapeKind::Rectangle(r) => r.color.as_str(),
            })
            .collect();
        assert_eq!(colors, ["red", "blue", "cyan"]);
        assert!(res.filtered.iter().all(|s| matches!(s, ShapeKind::Circle(_))));
    }
}

#[test]
fn filter_rectangles() {
    let res = filter(sample_scene(), "rectangle".to_string(), 2).unwrap();
    assert_eq!(res.filtered.len(), 2);
    assert!(res.filtered.iter().all(|s| matches!(s, ShapeKind::Rectangle(_))));
}

#[test]
fn filter_sizes_add_up_to_input_size() {
    let scene = sample_scene();
    let circles = filter(scene.clone(), "circle".to_string(), 0).unwrap().filtered;
    let rects = filter(scene.clone(), "rectangle".to_string(), 0).unwrap().filtered;
    assert_eq!(circles.len() + rects.len(), scene.len());
    let mut merged: Vec<ShapeKind> = Vec::new();
    let mut ci: usize = 0;
    let mut ri: usize = 0;
    for s in &scene {
        if matches!(s, ShapeKind::Circle(_)) {
            merged.push(circles[ci].clone());
            ci += 1;
        } else {
            merged.push(rects[ri].clone());
            ri += 1;
        }
    }
    assert!(merged.iter().zip(scene.iter()).all(|(a, b)| same_shape(a, b)));
}

#[test]
fn filter_unknown_kind_selects_nothing() {
    let res = filter(sample_scene(), "triangle".to_string(), 0).unwrap();
    assert!(res.filtered.is_empty());
    let res = filter(sample_scene(), "".to_string(), 2).unwrap();
    assert!(res.filtered.is_empty());
}

#[test]
fn filter_kind_is_case_insensitive() {
    let upper = filter(sample_scene(), "CIRCLE".to_string(), 0).unwrap().filtered;
    let lower = filter(sample_scene(), "circle".to_string(), 0).unwrap().filtered;
    assert_eq!(upper.len(), lower.len());
    assert!(upper.iter().zip(lower.iter()).all(|(a, b)| same_shape(a, b)));
    let mixed = filter(sample_scene(), "ReCtAnGlE".to_string(), 3).unwrap().filtered;
    assert_eq!(mixed.len(), 2);
}

#[test]
fn mutation_rewrites_circle_to_enclosing_rectangle() {
    let shapes = vec![circle(5, 5, 3, "red")];
    let res = mutate_circles_to_rectangles(shapes, 0).unwrap();
    assert!(same_shape(&res.values[0], &rectangle(2, 2, 6, 6, "red")));
}

#[test]
fn mutation_keeps_rectangles_unchanged() {
    let shapes = vec![
        rectangle(2, 2, 2, 2, "green"),
        rectangle(-5, -5, 1, 10, "yellow"),
    ];
    for threads in [0, 2] {
        let res = mutate_circles_to_rectangles(shapes.clone(), threads).unwrap();
        assert_eq!(res.values.len(), shapes.len());
        assert!(res.values.iter().zip(shapes.iter()).all(|(a, b)| same_shape(a, b)));
    }
}

#[test]
fn mutation_preserves_order_for_every_thread_count() {
    let expected: Vec<ShapeKind> =
        mutate_circles_to_rectangles(sample_scene(), 0).unwrap().values;
    for threads in 1..5 {
        let res = mutate_circles_to_rectangles(sample_scene(), threads).unwrap();
        assert_eq!(res.values.len(), expected.len());
        assert!(res.values.iter().zip(expected.iter()).all(|(a, b)| same_shape(a, b)));
    }
}

#[test]
fn mutation_preserves_rectangular_area() {
    let shapes = vec![circle(5, 5, 3, "red")];
    let before = shapes[0].rectangular_area();
    let res = mutate_circles_to_rectangles(shapes, 0).unwrap();
    assert_eq!(res.values[0].rectangular_area(), before);
}

#[test]
fn rectangular_area_rule() {
    assert_eq!(circle(0, 0, 2, "red").rectangular_area(), 16);
    assert_eq!(rectangle(0, 0, 3, 4, "green").rectangular_area(), 12);
}

#[test]
fn rectangular_area_negative_radius() {
    assert_eq!(circle(0, 0, -2, "red").rectangular_area(), 16);
}

#[test]
fn min_max_pick_the_right_operand() {
    assert_eq!(min(3, 5), 3);
    assert_eq!(min(5, 3), 3);
    assert_eq!(max(-2, 7), 7);
    assert_eq!(max(7, -2), 7);
}

#[test]
fn bounding_box_combine_and_area() {
    let a = MinMaxCoordinates::from(Coordinates::new(-1, -1), Coordinates::new(1, 1));
    let b = MinMaxCoordinates::from(Coordinates::new(2, 2), Coordinates::new(4, 4));
    let c = a.min_max(&b);
    assert_eq!(c.min.x, -1);
    assert_eq!(c.min.y, -1);
    assert_eq!(c.max.x, 4);
    assert_eq!(c.max.y, 4);
    assert_eq!(c.area(), 25);
}

#[test]
fn identity_box_is_neutral() {
    let b = MinMaxCoordinates::from(Coordinates::new(-3, 0), Coordinates::new(2, 5));
    let folded = MinMaxCoordinates::new().min_max(&b);
    assert_eq!(folded.min.x, b.min.x);
    assert_eq!(folded.min.y, b.min.y);
    assert_eq!(folded.max.x, b.max.x);
    assert_eq!(folded.max.y, b.max.y);
}

#[test]
fn bounding_box_of_each_variant() {
    let c = circle(0, 0, 1, "red").bounding_box();
    assert_eq!((c.min.x, c.min.y, c.max.x, c.max.y), (-1, -1, 1, 1));
    let r = rectangle(2, 2, 2, 2, "green").bounding_box();
    assert_eq!((r.min.x, r.min.y, r.max.x, r.max.y), (2, 2, 4, 4));
}
