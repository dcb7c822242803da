use dgs::color::Color;
use dgs::objects;
use dgs::objects::{
    arc, build_point_lookup, circle, color, ellipse, eq, eq_param, point, point_at, polygon,
    resolve_objects, semicircle, Object, PointLookup, PointRef, SemicircleDir,
};
use dgs::viewport::Viewport;

#[test]
fn test_point_lookup() {
    let objects = vec![Object::Point {
        name: Some("A".to_string()),
        coords: (1.0, 2.0),
        color: None,
        size: None,
    }];
    let lookup = build_point_lookup(&objects);
    assert_eq!(lookup.get("A"), Some((1.0, 2.0)));
}

#[test]
fn test_resolve_named_point() {
    let pr: PointRef<f64> = PointRef::Named("A".to_string());
    let mut lookup = PointLookup::new();
    lookup.insert("A".to_string(), (3.0, 4.0));
    assert_eq!(pr.resolve(&lookup), Some((3.0, 4.0)));
}

#[test]
fn test_point_ref_conversions() {
    let _: PointRef<f64> = "A".into();
    let _: PointRef<f64> = (1.0, 2.0).into();
}

#[test]
fn point_refs_from_names() {
    let a: PointRef<f64> = "A".into();
    assert!(matches!(a, PointRef::Named(ref n) if n == "A"));
    let b: PointRef<f64> = String::from("B").into();
    assert!(matches!(b, PointRef::Named(ref n) if n == "B"));
    let l: Object<f64> = objects::line("A".into(), "B".into());
    assert!(matches!(l, Object::Line { from: PointRef::Named(_), to: PointRef::Named(_), .. }));
}

#[test]
fn clones_are_equal_copies() {
    let p = polygon(vec![PointRef::named("A"), PointRef::at(1, 2), PointRef::at(3, 4)]).with_fill(color("red"));
    match p.clone() {
        Object::Polygon { points, fill, .. } => {
            assert_eq!(points.len(), 3);
            assert!(matches!(points[1], PointRef::Coords(1, 2)));
            assert_eq!(fill, Some(color("red")));
        },
        _ => panic!("not a polygon"),
    }
    let q = point("A", 1, 2).clone();
    assert!(matches!(q, Object::Point { coords: (1, 2), .. }));
}

#[test]
fn point_ref_conversion_keeps_coordinates() {
    let p: PointRef<i64> = (1, 2).into();
    assert!(matches!(p, PointRef::Coords(1, 2)));
    assert!(matches!(PointRef::<i64>::named("B"), PointRef::Named(ref n) if n == "B"));
}

#[test]
fn unknown_name_does_not_resolve() {
    let lookup: PointLookup<i64> = PointLookup::new();
    assert_eq!(PointRef::<i64>::named("Z").resolve(&lookup), None);
    assert_eq!(PointRef::at(5, 6).resolve(&lookup), Some((5, 6)));
}

#[test]
fn later_definition_of_a_name_wins() {
    let objects = vec![
        point("A", 1, 1),
        point_at(7, 7),
        point("B", 2, 2),
        point("A", 3, 3),
    ];
    let lookup = build_point_lookup(&objects);
    assert_eq!(lookup.get("A"), Some((3, 3)));
    assert_eq!(lookup.get("B"), Some((2, 2)));
    assert_eq!(lookup.get("C"), None);
    let mut l2 = PointLookup::new();
    l2.insert("P".to_string(), (1, 0));
    l2.insert("P".to_string(), (0, 1));
    assert_eq!(l2.get("P"), Some((0, 1)));
}

#[test]
fn semicircle_dir_names() {
    assert_eq!(SemicircleDir::Clockwise.as_str(), "cw");
    assert_eq!(SemicircleDir::CounterClockwise.as_str(), "ccw");
    assert_eq!(SemicircleDir::parse("cw"), Some(SemicircleDir::Clockwise));
    assert_eq!(SemicircleDir::parse("  CCW "), Some(SemicircleDir::CounterClockwise));
    assert_eq!(SemicircleDir::parse("Clockwise"), Some(SemicircleDir::Clockwise));
    assert_eq!(SemicircleDir::parse("counter-clockwise"), Some(SemicircleDir::CounterClockwise));
    assert_eq!(SemicircleDir::parse("CounterClockwise\n"), Some(SemicircleDir::CounterClockwise));
    assert_eq!(SemicircleDir::parse("left"), None);
    assert_eq!(SemicircleDir::parse(""), None);
    for d in [SemicircleDir::Clockwise, SemicircleDir::CounterClockwise] {
        assert_eq!(SemicircleDir::parse(d.as_str()), Some(d));
    }
}

#[test]
fn semicircle_dir_from_str() {
    let d: SemicircleDir = "cw".parse().unwrap();
    assert_eq!(d, SemicircleDir::Clockwise);
    let e: Result<SemicircleDir, String> = "left".parse();
    assert_eq!(e, Err("dir must be CW or CCW, got left".to_string()));
}

#[test]
fn colors_by_name_and_hex() {
    assert_eq!(color("red"), Color::rgb(0xff, 0x41, 0x36));
    assert_eq!(color("black"), Color::rgb(0, 0, 0));
    assert_eq!(color("#0000ff40"), Color::rgba(0, 0, 255, 0x40));
    assert_eq!(color("#ff6600"), Color::rgb(255, 102, 0));
    assert_eq!(color("#f60"), Color::rgb(255, 102, 0));
    assert_eq!(color("#FF6600"), Color::rgb(255, 102, 0));
    assert_eq!(Color::parse("#ff660"), None);
    assert_eq!(Color::parse("#gg0000"), None);
    assert_eq!(Color::parse("bleu"), None);
    assert_eq!(Color::parse(""), None);
    assert_eq!(Color::parse("#"), None);
}

#[test]
fn constructors_start_unstyled() {
    match point("A", 1.0, 2.0) {
        Object::Point { name, coords, color, size } => {
            assert_eq!(name.as_deref(), Some("A"));
            assert_eq!(coords, (1.0, 2.0));
            assert!(color.is_none() && size.is_none());
        },
        _ => panic!("not a point"),
    }
    assert!(matches!(point_at(1, 2), Object::Point { name: None, coords: (1, 2), .. }));
    assert!(matches!(
        circle(PointRef::named("A"), 2),
        Object::Circle { radius: 2, color: None, stroke: None, fill: None, .. }
    ));
    assert!(matches!(
        arc(PointRef::at(0, 0), 2, 0, 90),
        Object::Arc { radius: 2, start_angle: 0, end_angle: 90, .. }
    ));
    assert!(matches!(
        ellipse(PointRef::at(0, 0), 3, 2),
        Object::Ellipse { rx: 3, ry: 2, rotation: None, .. }
    ));
    match semicircle::<i32>(PointRef::named("A"), PointRef::named("B")) {
        Object::Semicircle { dir, center, .. } => {
            assert_eq!(dir, "ccw");
            assert!(center.is_none());
        },
        _ => panic!("not a semicircle"),
    }
    match eq::<f64>("x^2") {
        Object::Curve { expr_str, var_name, t_min, t_max, .. } => {
            assert_eq!(expr_str, "x^2");
            assert_eq!(var_name, "x");
            assert!(t_min.is_none() && t_max.is_none());
        },
        _ => panic!("not a curve"),
    }
    match eq_param::<f64>("cos(t)", "sin(t)") {
        Object::CurveParam { x_expr, y_expr, .. } => {
            assert_eq!(x_expr, "cos(t)");
            assert_eq!(y_expr, "sin(t)");
        },
        _ => panic!("not a parametric curve"),
    }
    match polygon::<i32>(vec![PointRef::named("A"), PointRef::named("B"), PointRef::at(3, 0)]) {
        Object::Polygon { points, .. } => assert_eq!(points.len(), 3),
        _ => panic!("not a polygon"),
    }
    assert!(matches!(
        objects::line::<i32>(PointRef::named("A"), PointRef::at(5, 5)),
        Object::Line { to: PointRef::Coords(5, 5), .. }
    ));
}

#[test]
fn builders_set_what_the_kind_has() {
    let red = color("red");
    let c = circle(PointRef::named("A"), 2).with_color(red).with_stroke(3).with_fill(color("blue"));
    assert!(matches!(c, Object::Circle { color: Some(_), stroke: Some(3), fill: Some(_), .. }));
    // A point has neither stroke nor fill: those builders leave it as it is.
    let p = point_at(0, 0).with_stroke(4).with_fill(red).with_size(3);
    assert!(matches!(p, Object::Point { color: None, size: Some(3), .. }));
    // Size only applies to points.
    let l = objects::line(PointRef::at(0, 0), PointRef::at(1, 1)).with_size(9).with_stroke(2);
    assert!(matches!(l, Object::Line { stroke: Some(2), .. }));
    let e = ellipse(PointRef::at(0, 0), 3, 2).with_rotation(30);
    assert!(matches!(e, Object::Ellipse { rotation: Some(30), .. }));
    let s = semicircle(PointRef::named("A"), PointRef::named("B"))
        .with_dir(SemicircleDir::Clockwise)
        .with_center(PointRef::at(1, 1));
    match s {
        Object::Semicircle { dir, center, .. } => {
            assert_eq!(dir, "cw");
            assert!(matches!(center, Some(PointRef::Coords(1, 1))));
        },
        _ => panic!("not a semicircle"),
    }
    let q = eq::<f64>("sin(t)").with_var("t").with_range(-5.0, 5.0).with_samples(1).with_tolerance(0.5);
    match q {
        Object::Curve { var_name, t_min, t_max, samples, tolerance, .. } => {
            assert_eq!(var_name, "t");
            assert_eq!((t_min, t_max), (Some(-5.0), Some(5.0)));
            // At least two samples.
            assert_eq!(samples, Some(2));
            assert_eq!(tolerance, Some(0.5));
        },
        _ => panic!("not a curve"),
    }
    let r = eq::<f64>("x").with_precision(100);
    assert!(matches!(r, Object::Curve { samples: Some(100), .. }));
    let pr = eq_param::<f64>("t", "t").with_range(0.0, 1.0).with_samples(0);
    assert!(matches!(pr, Object::CurveParam { t_min: Some(_), t_max: Some(_), samples: Some(2), .. }));
}

#[test]
fn resolving_replaces_names_and_samples_curves() {
    let objects = vec![
        point("A", 1, 2),
        objects::line(PointRef::named("A"), PointRef::named("Q")),
        eq("x").with_samples(5),
        eq_param("t", "t"),
    ];
    let lookup = build_point_lookup(&objects);
    let vp = Viewport::new(-10, -10, 10, 10, 200, 200);
    let r = resolve_objects(
        &objects,
        &lookup,
        &vp,
        |_e: &String, _v: &String, lo: i32, hi: i32, k: usize, _t: Option<i32>| {
            vec![(lo, k as i32), (hi, k as i32)]
        },
        |_x: &String, _y: &String, lo: Option<i32>, _hi: Option<i32>, k: usize, _t: Option<i32>| {
            vec![(lo.unwrap_or(-1), k as i32)]
        },
    );
    assert_eq!(r.len(), 4);
    assert!(matches!(r[0], Object::Point { coords: (1, 2), .. }));
    match &r[1] {
        Object::Line { from, to, .. } => {
            assert!(matches!(from, PointRef::Coords(1, 2)));
            assert!(matches!(to, PointRef::Named(n) if n == "Q"));
        },
        _ => panic!("not a line"),
    }
    match &r[2] {
        Object::ResolvedCurve { points, .. } => assert_eq!(points, &vec![(-10, 5), (10, 5)]),
        _ => panic!("not resolved"),
    }
    match &r[3] {
        Object::ResolvedCurve { points, .. } => assert_eq!(points, &vec![(-1, 256)]),
        _ => panic!("not resolved"),
    }
}
