use dgs::color::Color;
use dgs::objects;
use dgs::objects::{
    arc, circle, color, ellipse, eq, eq_param, point, point_at, polygon, semicircle, Object,
    PointRef, SemicircleDir,
};
use dgs::scene::{RenderError, Renderer, Scene};
use dgs::theme::Theme;
use dgs::viewport::Viewport;

fn canvas() -> Scene<f64> {
    Scene::new(Viewport::new(0.0, 0.0, 10.0, 10.0, 300.0, 300.0)).grid(true).axes(true)
}

#[test]
fn builder_api_objects() {
    let s = canvas()
        .push(point("A", 0.0, 0.0).with_color(color("red")).with_size(3.0))
        .push(point("B", 3.0, 4.0))
        .push(point_at(1.0, 1.0))
        .push(objects::line(PointRef::named("A"), PointRef::named("B")).with_stroke(2.0))
        .push(objects::line(PointRef::named("A"), (5.0, 5.0).into()))
        .push(circle(PointRef::named("A"), 2.0).with_fill(color("#0000ff40")))
        .push(polygon(vec![PointRef::named("A"), PointRef::named("B"), (3.0, 0.0).into()]))
        .push(ellipse(PointRef::named("A"), 3.0, 2.0).with_rotation(30.0))
        .push(arc(PointRef::named("A"), 2.0, 0.0, 90.0))
        .push(semicircle(PointRef::named("A"), PointRef::named("B")).with_dir(SemicircleDir::Clockwise))
        .push(semicircle(PointRef::named("A"), PointRef::named("B")).with_dir("cw".parse().unwrap()))
        .push(eq("sin(x) / x").with_range(-5.0, 5.0))
        .push(eq("x^2").with_var("x").with_color(color("green")))
        .push(eq_param("2 * cos(t)", "2 * sin(t)").with_range(0.0, 6.28));
    assert_eq!(s.objects().len(), 14);
    assert!(matches!(s.objects()[0], Object::Point { size: Some(s), color: Some(_), .. } if s == 3.0));
    assert!(matches!(&s.objects()[5], Object::Circle { fill: Some(c), .. } if *c == Color::rgba(0, 0, 255, 0x40)));
    match &s.objects()[10] {
        Object::Semicircle { dir, .. } => assert_eq!(dir, "cw"),
        _ => panic!("not a semicircle"),
    }
}

#[test]
fn extend_from_iterator() {
    let pts = vec![(0.0, 0.0), (1.0, 1.0), (2.0, 4.0)];
    let s = canvas().extend(pts.iter().map(|&(x, y)| point_at(x, y)).collect());
    assert_eq!(s.objects().len(), 3);
    assert!(matches!(s.objects()[2], Object::Point { coords, .. } if coords == (2.0, 4.0)));
}

#[test]
fn push_appends_and_keeps_order() {
    let s = Scene::new(Viewport::new(0, 0, 10, 10, 100, 100))
        .push(point("A", 1, 1))
        .push(point("B", 2, 2))
        .extend(vec![point_at(3, 3), point_at(4, 4)]);
    let names: Vec<Option<&str>> = s
        .objects()
        .iter()
        .map(|o| match o {
            Object::Point { name, .. } => name.as_deref(),
            _ => None,
        })
        .collect();
    assert_eq!(names, vec![Some("A"), Some("B"), None, None]);
}

#[test]
fn scene_shortcuts_push_objects() {
    let s = Scene::new(Viewport::new(-5.0, -5.0, 5.0, 5.0, 200.0, 200.0))
        .theme(Theme::dark())
        .grid_color(color("gray"))
        .grid_width(0.5)
        .grid_spacing(2.0)
        .axis_color(color("black"))
        .axis_width(1.0)
        .axis_label_size(10.0)
        .point_named("A", 0.0, 0.0)
        .point_at(1.0, 1.0)
        .line(PointRef::named("A"), PointRef::at(1.0, 1.0))
        .circle(PointRef::named("A"), 2.0)
        .polygon(vec![PointRef::at(0.0, 0.0), PointRef::at(1.0, 0.0), PointRef::at(0.0, 1.0)])
        .ellipse(PointRef::named("A"), 3.0, 2.0, Some(45.0))
        .arc(PointRef::named("A"), 1.0, 0.0, 180.0)
        .semicircle(PointRef::named("A"), PointRef::at(1.0, 0.0), None, SemicircleDir::Clockwise)
        .curve("sin(x)", "x", -5.0, 5.0)
        .curve_param("cos(t)", "sin(t)", 0.0, 6.28)
        .polyline(vec![(0.0, 0.0), (1.0, 1.0)]);
    assert_eq!(s.objects().len(), 11);
    assert!(matches!(&s.objects()[5], Object::Ellipse { rotation: Some(r), .. } if *r == 45.0));
    match &s.objects()[7] {
        Object::Semicircle { dir, .. } => assert_eq!(dir, "cw"),
        _ => panic!("not a semicircle"),
    }
    match &s.objects()[8] {
        Object::Curve { expr_str, var_name, t_min, t_max, .. } => {
            assert_eq!(expr_str, "sin(x)");
            assert_eq!(var_name, "x");
            assert_eq!((*t_min, *t_max), (Some(-5.0), Some(5.0)));
        },
        _ => panic!("not a curve"),
    }
    assert!(matches!(&s.objects()[10], Object::ResolvedCurve { points, .. } if points.len() == 2));
}

#[test]
fn style_last_restyles_only_the_last_object() {
    let s = Scene::new(Viewport::new(-5.0, -5.0, 5.0, 5.0, 200.0, 200.0))
        .point_named("A", 0.0, 0.0)
        .circle(PointRef::named("A"), 2.0)
        .style_last(Some(Color::rgb(255, 0, 0)), Some(2.0), Some(color("blue")));
    assert!(matches!(s.objects()[0], Object::Point { color: None, .. }));
    assert!(matches!(
        &s.objects()[1],
        Object::Circle { color: Some(c), stroke: Some(w), fill: Some(_), .. }
            if *c == Color::rgb(255, 0, 0) && *w == 2.0
    ));
    // A point takes the color only.
    let p = Scene::new(Viewport::new(0, 0, 1, 1, 1, 1))
        .point_at(0, 0)
        .style_last(Some(color("red")), Some(5), Some(color("blue")));
    assert!(matches!(p.objects()[0], Object::Point { color: Some(_), size: None, .. }));
    // Nothing to style: the scene stays as it is.
    let e: Scene<i32> = Scene::new(Viewport::new(0, 0, 1, 1, 1, 1)).style_last(None, Some(1), None);
    assert!(e.objects().is_empty());
}

struct CountRenderer;

impl Renderer<i32> for CountRenderer {
    type Output = usize;
    type Error = RenderError;

    fn render(&self, scene: &Scene<i32>) -> Result<usize, RenderError> {
        if scene.objects().is_empty() {
            Err(RenderError::Pixmap)
        } else {
            Ok(scene.objects().len())
        }
    }
}

#[test]
fn render_with_hands_the_scene_to_the_renderer() {
    let s = Scene::new(Viewport::new(0, 0, 1, 1, 1, 1)).point_at(0, 0).point_at(1, 1);
    assert_eq!(s.render_with(CountRenderer).unwrap(), 2);
    let e = Scene::new(Viewport::new(0, 0, 1, 1, 1, 1));
    assert!(e.render_with(CountRenderer).is_err());
}

#[test]
fn render_error_messages() {
    assert_eq!(
        RenderError::Svg("bad".to_string()).message(),
        "invalid SVG for rasterization: bad"
    );
    assert_eq!(RenderError::Pixmap.message(), "failed to allocate pixel buffer");
    assert_eq!(RenderError::Png("io".to_string()).message(), "PNG encoding failed: io");
}

#[test]
fn themes() {
    assert_eq!(Theme::default(), Theme::Light);
    assert_eq!(Theme::light(), Theme::Light);
    assert_eq!(Theme::dark(), Theme::Dark);
}

#[test]
fn a_second_style_last_replaces_the_first() {
    let base = Scene::new(Viewport::new(0, 0, 1, 1, 1, 1)).circle(PointRef::named("A"), 1);
    let twice = base.clone().style_last(Some(color("red")), Some(3), Some(color("blue"))).style_last(None, Some(1), None);
    let once = base.clone().style_last(None, Some(1), None);
    assert!(matches!(twice.objects()[0], Object::Circle { color: None, stroke: Some(1), fill: None, .. }));
    assert!(matches!(once.objects()[0], Object::Circle { color: None, stroke: Some(1), fill: None, .. }));
}

#[test]
fn cloned_scene_keeps_its_objects() {
    let s = Scene::new(Viewport::new(0, 0, 1, 1, 1, 1)).point_named("A", 1, 1).point_at(2, 2);
    let c = s.clone();
    assert_eq!(c.objects().len(), 2);
    assert!(matches!(c.objects()[1], Object::Point { coords: (2, 2), .. }));
}
