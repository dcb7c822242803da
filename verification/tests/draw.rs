use dgs::draw::{drawables, Drawable};
use dgs::objects;
use dgs::objects::{build_point_lookup, circle, eq, point, point_at, polygon, semicircle, Object, PointRef};

#[test]
fn drawing_looks_up_names_and_leaves_out_what_cannot_be_drawn() {
    let objs = vec![
        point("A", 1, 2),
        objects::line(PointRef::named("A"), PointRef::at(5, 5)),
        objects::line(PointRef::named("A"), PointRef::named("Z")),
        circle(PointRef::named("Z"), 3),
        polygon(vec![PointRef::named("Z"), PointRef::at(0, 0), PointRef::named("A")]),
        polygon(vec![PointRef::named("Z")]),
        semicircle(PointRef::named("A"), PointRef::at(0, 0)).with_center(PointRef::named("Q")),
        eq("x"),
        Object::ResolvedCurve { points: vec![(0, 0), (1, 1)], color: None, stroke: Some(2) },
        point_at(7, 7),
    ];
    let lookup = build_point_lookup(&objs);
    let d = drawables(&objs, &lookup);
    assert_eq!(d.len(), 6);
    assert!(matches!(d[0], Drawable::Point { coords: (1, 2), .. }));
    assert!(matches!(d[1], Drawable::Line { from: (1, 2), to: (5, 5), .. }));
    match &d[2] {
        Drawable::Polygon { points, .. } => assert_eq!(points, &vec![(0, 0), (1, 2)]),
        _ => panic!("not a polygon"),
    }
    match &d[3] {
        Drawable::Semicircle { from, to, center, dir, .. } => {
            assert_eq!((*from, *to, *center), ((1, 2), (0, 0), None));
            assert_eq!(dir, "ccw");
        },
        _ => panic!("not a semicircle"),
    }
    match &d[4] {
        Drawable::Curve { points, stroke, .. } => {
            assert_eq!(points, &vec![(0, 0), (1, 1)]);
            assert_eq!(*stroke, Some(2));
        },
        _ => panic!("not a curve"),
    }
    assert!(matches!(d[5], Drawable::Point { coords: (7, 7), .. }));
}

#[test]
fn replacing_known_names_draws_the_same() {
    let objs = vec![
        objects::line(PointRef::named("A"), PointRef::named("B")),
        point("A", 1, 2),
        point("B", 3, 4),
        point("A", 5, 6),
    ];
    let resolved = vec![
        objects::line(PointRef::at(5, 6), PointRef::at(3, 4)),
        point("A", 1, 2),
        point("B", 3, 4),
        point("A", 5, 6),
    ];
    let d1 = drawables(&objs, &build_point_lookup(&objs));
    let d2 = drawables(&resolved, &build_point_lookup(&resolved));
    assert_eq!(d1.len(), d2.len());
    assert!(matches!(d1[0], Drawable::Line { from: (5, 6), to: (3, 4), .. }));
    assert!(matches!(d2[0], Drawable::Line { from: (5, 6), to: (3, 4), .. }));
}

#[test]
fn an_object_with_an_unknown_name_draws_nothing() {
    let objs = vec![point("A", 0, 0), circle(PointRef::named("Q"), 1)];
    let d = drawables(&objs, &build_point_lookup(&objs));
    assert_eq!(d.len(), 1);
}
