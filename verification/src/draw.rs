//! What drawing a scene's objects takes, decided before any pixel: each
//! object with its point references looked up, and the objects that
//! cannot be drawn left out.

use vstd::prelude::*;
use crate::color::Color;
use crate::objects::{
    lemma_resolve_ref_keeps_meaning, named_points, resolve_ref_spec, resolve_spec, same_object,
    Object, PointLookup, PointRef,
};

verus! {

/// An object ready to draw: coordinates in place of point references, and
/// the style it was given (`None`: the renderer's default).
#[derive(Debug)]
pub enum Drawable<N> {
    Point { coords: (N, N), color: Option<Color>, size: Option<N> },
    Line { from: (N, N), to: (N, N), color: Option<Color>, stroke: Option<N> },
    Circle {
        center: (N, N),
        radius: N,
        color: Option<Color>,
        stroke: Option<N>,
        fill: Option<Color>,
    },
    Polygon { points: Vec<(N, N)>, color: Option<Color>, stroke: Option<N>, fill: Option<Color> },
    Ellipse {
        center: (N, N),
        rx: N,
        ry: N,
        rotation: Option<N>,
        color: Option<Color>,
        stroke: Option<N>,
        fill: Option<Color>,
    },
    Arc {
        center: (N, N),
        radius: N,
        start_angle: N,
        end_angle: N,
        color: Option<Color>,
        stroke: Option<N>,
    },
    Semicircle {
        from: (N, N),
        to: (N, N),
        center: Option<(N, N)>,
        dir: String,
        color: Option<Color>,
        stroke: Option<N>,
        fill: Option<Color>,
    },
    Curve { points: Vec<(N, N)>, color: Option<Color>, stroke: Option<N> },
}

/// A `Drawable`, its vectors and strings by their contents.
pub enum DrawableView<N> {
    Point { coords: (N, N), color: Option<Color>, size: Option<N> },
    Line { from: (N, N), to: (N, N), color: Option<Color>, stroke: Option<N> },
    Circle {
        center: (N, N),
        radius: N,
        color: Option<Color>,
        stroke: Option<N>,
        fill: Option<Color>,
    },
    Polygon { points: Seq<(N, N)>, color: Option<Color>, stroke: Option<N>, fill: Option<Color> },
    Ellipse {
        center: (N, N),
        rx: N,
        ry: N,
        rotation: Option<N>,
        color: Option<Color>,
        stroke: Option<N>,
        fill: Option<Color>,
    },
    Arc {
        center: (N, N),
        radius: N,
        start_angle: N,
        end_angle: N,
        color: Option<Color>,
        stroke: Option<N>,
    },
    Semicircle {
        from: (N, N),
        to: (N, N),
        center: Option<(N, N)>,
        dir: Seq<char>,
        color: Option<Color>,
        stroke: Option<N>,
        fill: Option<Color>,
    },
    Curve { points: Seq<(N, N)>, color: Option<Color>, stroke: Option<N> },
}

impl<N> View for Drawable<N> {
    type V = DrawableView<N>;

    open spec fn view(&self) -> DrawableView<N> {
        match *self {
            Drawable::Point { coords, color, size } => DrawableView::Point { coords, color, size },
            Drawable::Line { from, to, color, stroke } => DrawableView::Line {
                from,
                to,
                color,
                stroke,
            },
            Drawable::Circle { center, radius, color, stroke, fill } => DrawableView::Circle {
                center,
                radius,
                color,
                stroke,
                fill,
            },
            Drawable::Polygon { points, color, stroke, fill } => DrawableView::Polygon {
                points: points@,
                color,
                stroke,
                fill,
            },
            Drawable::Ellipse { center, rx, ry, rotation, color, stroke, fill } =>
                DrawableView::Ellipse { center, rx, ry, rotation, color, stroke, fill },
            Drawable::Arc { center, radius, start_angle, end_angle, color, stroke } =>
                DrawableView::Arc { center, radius, start_angle, end_angle, color, stroke },
            Drawable::Semicircle { from, to, center, dir, color, stroke, fill } =>
                DrawableView::Semicircle { from, to, center, dir: dir@, color, stroke, fill },
            Drawable::Curve { points, color, stroke } => DrawableView::Curve {
                points: points@,
                color,
                stroke,
            },
        }
    }
}

/// The coordinates of the references in `pts` that resolve under `m`, in
/// order (those that do not are left out).
pub open spec fn known_points<N>(pts: Seq<PointRef<N>>, m: Map<Seq<char>, (N, N)>) -> Seq<(N, N)>
    decreases pts.len(),
{
    if pts.len() == 0 {
        Seq::empty()
    } else {
        let rest = known_points(pts.drop_last(), m);
        match resolve_spec(pts.last(), m) {
            Some(c) => rest.push(c),
            None => rest,
        }
    }
}

/// What drawing `o` takes under the named points `m`: `None` where a
/// point reference it needs does not resolve, where none of a polygon's
/// points resolves, and for a curve not yet sampled.
pub open spec fn drawable_of<N>(o: Object<N>, m: Map<Seq<char>, (N, N)>) -> Option<DrawableView<N>> {
    match o {
        Object::Point { coords, color, size, .. } => Some(
            DrawableView::Point { coords, color, size },
        ),
        Object::Line { from, to, color, stroke } => match (resolve_spec(from, m), resolve_spec(to, m)) {
            (Some(f), Some(t)) => Some(DrawableView::Line { from: f, to: t, color, stroke }),
            _ => None,
        },
        Object::Circle { center, radius, color, stroke, fill } => match resolve_spec(center, m) {
            Some(c) => Some(DrawableView::Circle { center: c, radius, color, stroke, fill }),
            None => None,
        },
        Object::Polygon { points, color, stroke, fill } => {
            let pts = known_points(points@, m);
            if pts.len() == 0 {
                None
            } else {
                Some(DrawableView::Polygon { points: pts, color, stroke, fill })
            }
        },
        Object::Ellipse { center, rx, ry, rotation, color, stroke, fill } => match resolve_spec(
            center,
            m,
        ) {
            Some(c) => Some(
                DrawableView::Ellipse { center: c, rx, ry, rotation, color, stroke, fill },
            ),
            None => None,
        },
        Object::Arc { center, radius, start_angle, end_angle, color, stroke } => match resolve_spec(
            center,
            m,
        ) {
            Some(c) => Some(
                DrawableView::Arc { center: c, radius, start_angle, end_angle, color, stroke },
            ),
            None => None,
        },
        Object::Semicircle { from, to, center, dir, color, stroke, fill } => match (
            resolve_spec(from, m),
            resolve_spec(to, m),
        ) {
            (Some(f), Some(t)) => Some(
                DrawableView::Semicircle {
                    from: f,
                    to: t,
                    center: match center {
                        Some(c) => resolve_spec(c, m),
                        None => None,
                    },
                    dir: dir@,
                    color,
                    stroke,
                    fill,
                },
            ),
            _ => None,
        },
        Object::ResolvedCurve { points, color, stroke } => Some(
            DrawableView::Curve { points: points@, color, stroke },
        ),
        Object::Curve { .. } => None,
        Object::CurveParam { .. } => None,
    }
}

/// What drawing `objs` takes, in order, the objects that cannot be drawn
/// left out.
pub open spec fn drawing_of<N>(objs: Seq<Object<N>>, m: Map<Seq<char>, (N, N)>) -> Seq<DrawableView<N>>
    decreases objs.len(),
{
    if objs.len() == 0 {
        Seq::empty()
    } else {
        let rest = drawing_of(objs.drop_last(), m);
        match drawable_of(objs.last(), m) {
            Some(d) => rest.push(d),
            None => rest,
        }
    }
}

/// The views of drawables.
pub open spec fn drawables_view<N>(v: Seq<Drawable<N>>) -> Seq<DrawableView<N>> {
    Seq::new(v.len(), |k: int| v[k]@)
}

/// The coordinates of the references in `pts` that `lookup` resolves.
fn known_points_of<N: Copy>(pts: &Vec<PointRef<N>>, lookup: &PointLookup<N>) -> (r: Vec<(N, N)>)
    ensures
        r@ == known_points(pts@, lookup@),
{
    let mut r: Vec<(N, N)> = Vec::new();
    let mut i: usize = 0;
    while i < pts.len()
        invariant
            i <= pts@.len(),
            r@ == known_points(pts@.take(i as int), lookup@),
        decreases pts@.len() - i,
    {
        proof {
            assert(pts@.take(i + 1).drop_last() == pts@.take(i as int));
            assert(pts@.take(i + 1).last() == pts@[i as int]);
        }
        match pts[i].resolve(lookup) {
            Some(c) => r.push(c),
            None => {},
        }
        i = i + 1;
    }
    proof {
        assert(pts@.take(pts@.len() as int) == pts@);
    }
    r
}

/// A copy of `pts`.
fn copy_points<N: Copy>(pts: &Vec<(N, N)>) -> (r: Vec<(N, N)>)
    ensures
        r@ == pts@,
{
    let mut r: Vec<(N, N)> = Vec::new();
    let mut i: usize = 0;
    while i < pts.len()
        invariant
            i <= pts@.len(),
            r@ == pts@.take(i as int),
        decreases pts@.len() - i,
    {
        r.push(pts[i]);
        i = i + 1;
        assert(r@ =~= pts@.take(i as int));
    }
    assert(pts@.take(pts@.len() as int) =~= pts@);
    r
}

/// What drawing `o` takes under `lookup`.
fn drawable<N: Copy>(o: &Object<N>, lookup: &PointLookup<N>) -> (r: Option<Drawable<N>>)
    ensures
        match r {
            Some(d) => drawable_of(*o, lookup@) == Some(d@),
            None => drawable_of(*o, lookup@) is None,
        },
{
    match o {
        Object::Point { coords, color, size, .. } => Some(
            Drawable::Point { coords: *coords, color: *color, size: *size },
        ),
        Object::Line { from, to, color, stroke } => match (from.resolve(lookup), to.resolve(lookup)) {
            (Some(f), Some(t)) => Some(Drawable::Line { from: f, to: t, color: *color, stroke: *stroke }),
            _ => None,
        },
        Object::Circle { center, radius, color, stroke, fill } => match center.resolve(lookup) {
            Some(c) => Some(
                Drawable::Circle {
                    center: c,
                    radius: *radius,
                    color: *color,
                    stroke: *stroke,
                    fill: *fill,
                },
            ),
            None => None,
        },
        Object::Polygon { points, color, stroke, fill } => {
            let pts = known_points_of(points, lookup);
            if pts.len() == 0 {
                None
            } else {
                Some(Drawable::Polygon { points: pts, color: *color, stroke: *stroke, fill: *fill })
            }
        },
        Object::Ellipse { center, rx, ry, rotation, color, stroke, fill } => match center.resolve(
            lookup,
        ) {
            Some(c) => Some(
                Drawable::Ellipse {
                    center: c,
                    rx: *rx,
                    ry: *ry,
                    rotation: *rotation,
                    color: *color,
                    stroke: *stroke,
                    fill: *fill,
                },
            ),
            None => None,
        },
        Object::Arc { center, radius, start_angle, end_angle, color, stroke } => match center.resolve(
            lookup,
        ) {
            Some(c) => Some(
                Drawable::Arc {
                    center: c,
                    radius: *radius,
                    start_angle: *start_angle,
                    end_angle: *end_angle,
                    color: *color,
                    stroke: *stroke,
                },
            ),
            None => None,
        },
        Object::Semicircle { from, to, center, dir, color, stroke, fill } => match (
            from.resolve(lookup),
            to.resolve(lookup),
        ) {
            (Some(f), Some(t)) => {
                let c = match center {
                    Some(c) => c.resolve(lookup),
                    None => None,
                };
                Some(
                    Drawable::Semicircle {
                        from: f,
                        to: t,
                        center: c,
                        dir: dir.clone(),
                        color: *color,
                        stroke: *stroke,
                        fill: *fill,
                    },
                )
            },
            _ => None,
        },
        Object::ResolvedCurve { points, color, stroke } => Some(
            Drawable::Curve { points: copy_points(points), color: *color, stroke: *stroke },
        ),
        Object::Curve { .. } => None,
        Object::CurveParam { .. } => None,
    }
}

/// What drawing `objects` takes, in order, under the named points of
/// `lookup`: each object with its references looked up, leaving out an
/// object whose needed reference does not resolve, a polygon none of whose
/// points resolves, and a curve not yet sampled.
pub fn drawables<N: Copy>(objects: &[Object<N>], lookup: &PointLookup<N>) -> (r: Vec<Drawable<N>>)
    ensures
        drawables_view(r@) == drawing_of(objects@, lookup@),
{
    let mut r: Vec<Drawable<N>> = Vec::new();
    let n = objects.len();
    let mut i: usize = 0;
    while i < n
        invariant
            n == objects@.len(),
            i <= n,
            drawables_view(r@) == drawing_of(objects@.take(i as int), lookup@),
        decreases n - i,
    {
        proof {
            assert(objects@.take(i + 1).drop_last() == objects@.take(i as int));
            assert(objects@.take(i + 1).last() == objects@[i as int]);
        }
        let ghost before = r@;
        match drawable(&objects[i], lookup) {
            Some(d) => {
                r.push(d);
                assert(drawables_view(r@) =~= drawables_view(before).push(d@));
            },
            None => {},
        }
        i = i + 1;
    }
    proof {
        assert(objects@.take(n as int) == objects@);
    }
    r
}

// ---------------------------------------------------------------------------
// What the drawing does not depend on.
// ---------------------------------------------------------------------------

/// `r` is `o` with every name known to `m` replaced by its coordinates
/// (points and curves as they are).
pub open spec fn names_resolved<N>(o: Object<N>, r: Object<N>, m: Map<Seq<char>, (N, N)>) -> bool {
    match o {
        Object::Line { from, to, color, stroke } => r == Object::Line {
            from: resolve_ref_spec(from, m),
            to: resolve_ref_spec(to, m),
            color,
            stroke,
        },
        Object::Circle { center, radius, color, stroke, fill } => r == Object::Circle {
            center: resolve_ref_spec(center, m),
            radius,
            color,
            stroke,
            fill,
        },
        Object::Polygon { points, color, stroke, fill } => r matches Object::Polygon {
            points: p2,
            color: c2,
            stroke: s2,
            fill: f2,
        } && p2@ == points@.map_values(|p: PointRef<N>| resolve_ref_spec(p, m)) && c2 == color
            && s2 == stroke && f2 == fill,
        Object::Ellipse { center, rx, ry, rotation, color, stroke, fill } => r == Object::Ellipse {
            center: resolve_ref_spec(center, m),
            rx,
            ry,
            rotation,
            color,
            stroke,
            fill,
        },
        Object::Arc { center, radius, start_angle, end_angle, color, stroke } => r == Object::Arc {
            center: resolve_ref_spec(center, m),
            radius,
            start_angle,
            end_angle,
            color,
            stroke,
        },
        Object::Semicircle { from, to, center, dir, color, stroke, fill } => r
            == Object::Semicircle {
            from: resolve_ref_spec(from, m),
            to: resolve_ref_spec(to, m),
            center: match center {
                Some(c) => Some(resolve_ref_spec(c, m)),
                None => None,
            },
            dir,
            color,
            stroke,
            fill,
        },
        _ => same_object(o, r),
    }
}

/// Looking up the coordinates of resolved references gives the same
/// points.
proof fn lemma_known_points_resolved<N>(pts: Seq<PointRef<N>>, m: Map<Seq<char>, (N, N)>)
    ensures
        known_points(pts.map_values(|p: PointRef<N>| resolve_ref_spec(p, m)), m) == known_points(pts, m),
    decreases pts.len(),
{
    let f = |p: PointRef<N>| resolve_ref_spec(p, m);
    if pts.len() > 0 {
        lemma_known_points_resolved(pts.drop_last(), m);
        assert(pts.map_values(f).drop_last() =~= pts.drop_last().map_values(f));
        lemma_resolve_ref_keeps_meaning(pts.last(), m);
    }
}

/// Replacing known names by their coordinates does not change what
/// drawing an object takes.
pub proof fn lemma_drawable_names_resolved<N>(o: Object<N>, r: Object<N>, m: Map<Seq<char>, (N, N)>)
    requires
        names_resolved(o, r, m),
    ensures
        drawable_of(r, m) == drawable_of(o, m),
{
    match o {
        Object::Line { from, to, .. } => {
            lemma_resolve_ref_keeps_meaning(from, m);
            lemma_resolve_ref_keeps_meaning(to, m);
        },
        Object::Circle { center, .. } => lemma_resolve_ref_keeps_meaning(center, m),
        Object::Ellipse { center, .. } => lemma_resolve_ref_keeps_meaning(center, m),
        Object::Arc { center, .. } => lemma_resolve_ref_keeps_meaning(center, m),
        Object::Semicircle { from, to, center, .. } => {
            lemma_resolve_ref_keeps_meaning(from, m);
            lemma_resolve_ref_keeps_meaning(to, m);
            if let Some(c) = center {
                lemma_resolve_ref_keeps_meaning(c, m);
            }
        },
        Object::Polygon { points, .. } => {
            lemma_known_points_resolved(points@, m);
        },
        _ => {},
    }
}

/// A scene whose objects have every name known to the scene replaced by
/// its coordinates has the same named points and draws the same: names
/// resolve against every named point of the scene, a later one with the
/// same name winning.
pub proof fn lemma_drawing_names_resolved<N>(objs: Seq<Object<N>>, r: Seq<Object<N>>)
    requires
        r.len() == objs.len(),
        forall|i: int|
            0 <= i < objs.len() ==> names_resolved(objs[i], #[trigger] r[i], named_points(objs)),
    ensures
        named_points(r) == named_points(objs),
        drawing_of(r, named_points(r)) == drawing_of(objs, named_points(objs)),
{
    lemma_names_resolved_prefix(objs, r, named_points(objs));
}

/// `lemma_drawing_names_resolved` for any map `m`, by induction.
proof fn lemma_names_resolved_prefix<N>(
    objs: Seq<Object<N>>,
    r: Seq<Object<N>>,
    m: Map<Seq<char>, (N, N)>,
)
    requires
        r.len() == objs.len(),
        forall|i: int| 0 <= i < objs.len() ==> names_resolved(objs[i], #[trigger] r[i], m),
    ensures
        named_points(r) == named_points(objs),
        drawing_of(r, m) == drawing_of(objs, m),
    decreases objs.len(),
{
    if objs.len() > 0 {
        let n = objs.len() - 1;
        assert forall|i: int| 0 <= i < objs.drop_last().len() implies names_resolved(
            objs.drop_last()[i],
            #[trigger] r.drop_last()[i],
            m,
        ) by {
            assert(objs.drop_last()[i] == objs[i]);
            assert(r.drop_last()[i] == r[i]);
        }
        lemma_names_resolved_prefix(objs.drop_last(), r.drop_last(), m);
        assert(names_resolved(objs[n], r[n], m));
        lemma_drawable_names_resolved(objs.last(), r.last(), m);
    }
}

/// The references of `pts` that resolve under `m`, in order.
pub open spec fn known_refs<N>(pts: Seq<PointRef<N>>, m: Map<Seq<char>, (N, N)>) -> Seq<PointRef<N>>
    decreases pts.len(),
{
    if pts.len() == 0 {
        Seq::empty()
    } else {
        let rest = known_refs(pts.drop_last(), m);
        if resolve_spec(pts.last(), m) is Some {
            rest.push(pts.last())
        } else {
            rest
        }
    }
}

/// `o2` is `o` without the parts whose names `m` does not know that
/// drawing leaves out: a polygon's unknown vertices, a semicircle's unknown
/// center (other objects as they are).
pub open spec fn trimmed<N>(o: Object<N>, o2: Object<N>, m: Map<Seq<char>, (N, N)>) -> bool {
    match o {
        Object::Polygon { points, color, stroke, fill } => o2 matches Object::Polygon {
            points: p2,
            color: c2,
            stroke: s2,
            fill: f2,
        } && p2@ == known_refs(points@, m) && c2 == color && s2 == stroke && f2 == fill,
        Object::Semicircle { from, to, center, dir, color, stroke, fill } => o2
            == Object::Semicircle {
            from,
            to,
            center: match center {
                Some(c) => if resolve_spec(c, m) is Some {
                    Some(c)
                } else {
                    None
                },
                None => None,
            },
            dir,
            color,
            stroke,
            fill,
        },
        _ => same_object(o, o2),
    }
}

/// `o` needs a name that `m` does not know: a line's or semicircle's end,
/// a circle's, ellipse's or arc's center, or every vertex of a polygon.
pub open spec fn unresolvable<N>(o: Object<N>, m: Map<Seq<char>, (N, N)>) -> bool {
    match o {
        Object::Line { from, to, .. } => resolve_spec(from, m) is None || resolve_spec(to, m)
            is None,
        Object::Semicircle { from, to, .. } => resolve_spec(from, m) is None || resolve_spec(to, m)
            is None,
        Object::Circle { center, .. } => resolve_spec(center, m) is None,
        Object::Ellipse { center, .. } => resolve_spec(center, m) is None,
        Object::Arc { center, .. } => resolve_spec(center, m) is None,
        Object::Polygon { points, .. } => known_points(points@, m).len() == 0,
        _ => false,
    }
}

/// Dropping the references that do not resolve leaves the same points.
proof fn lemma_known_refs<N>(pts: Seq<PointRef<N>>, m: Map<Seq<char>, (N, N)>)
    ensures
        known_points(known_refs(pts, m), m) == known_points(pts, m),
    decreases pts.len(),
{
    if pts.len() > 0 {
        lemma_known_refs(pts.drop_last(), m);
        let rest = known_refs(pts.drop_last(), m);
        if resolve_spec(pts.last(), m) is Some {
            assert(rest.push(pts.last()).drop_last() =~= rest);
        }
    }
}

/// Pushing an object that is not a point keeps the scene's named points;
/// pushing it draws the same as pushing its trimmed form, and draws what
/// the scene drew without it where it needs a name the scene does not
/// know.
pub proof fn lemma_push_unknown_names<N>(objs: Seq<Object<N>>, o: Object<N>, o2: Object<N>)
    requires
        !(o is Point),
        trimmed(o, o2, named_points(objs)),
    ensures
        named_points(objs.push(o)) == named_points(objs),
        named_points(objs.push(o2)) == named_points(objs),
        drawing_of(objs.push(o), named_points(objs)) == drawing_of(
            objs.push(o2),
            named_points(objs),
        ),
        unresolvable(o, named_points(objs)) ==> drawing_of(objs.push(o), named_points(objs))
            == drawing_of(objs, named_points(objs)),
{
    let m = named_points(objs);
    assert(objs.push(o).drop_last() =~= objs);
    assert(objs.push(o2).drop_last() =~= objs);
    if let Object::Polygon { points, .. } = o {
        lemma_known_refs(points@, m);
    }
}

/// Drawing keeps every field of an object but its point references, which
/// become the coordinates they resolve to: the same radii, angles,
/// rotation, direction, points and style.
pub proof fn lemma_drawing_keeps_fields<N>(o: Object<N>, m: Map<Seq<char>, (N, N)>)
    ensures
        match o {
            Object::Point { coords, color, size, .. } => drawable_of(o, m) == Some(
                DrawableView::Point { coords, color, size },
            ),
            Object::Line { from, to, color, stroke } => match (resolve_spec(from, m), resolve_spec(to, m)) {
                (Some(f), Some(t)) => drawable_of(o, m) == Some(
                    DrawableView::Line { from: f, to: t, color, stroke },
                ),
                _ => drawable_of(o, m) is None,
            },
            Object::Circle { center, radius, color, stroke, fill } => match resolve_spec(center, m) {
                Some(c) => drawable_of(o, m) == Some(
                    DrawableView::Circle { center: c, radius, color, stroke, fill },
                ),
                None => drawable_of(o, m) is None,
            },
            Object::Ellipse { center, rx, ry, rotation, color, stroke, fill } => match resolve_spec(
                center,
                m,
            ) {
                Some(c) => drawable_of(o, m) == Some(
                    DrawableView::Ellipse { center: c, rx, ry, rotation, color, stroke, fill },
                ),
                None => drawable_of(o, m) is None,
            },
            Object::Arc { center, radius, start_angle, end_angle, color, stroke } => match resolve_spec(
                center,
                m,
            ) {
                Some(c) => drawable_of(o, m) == Some(
                    DrawableView::Arc { center: c, radius, start_angle, end_angle, color, stroke },
                ),
                None => drawable_of(o, m) is None,
            },
            Object::Semicircle { from, to, center, dir, color, stroke, fill } => match (
                resolve_spec(from, m),
                resolve_spec(to, m),
            ) {
                (Some(f), Some(t)) => drawable_of(o, m) matches Some(
                    DrawableView::Semicircle {
                        from: f2,
                        to: t2,
                        center: c2,
                        dir: d2,
                        color: col2,
                        stroke: s2,
                        fill: fi2,
                    },
                ) && f2 == f && t2 == t && d2 == dir@ && col2 == color && s2 == stroke && fi2
                    == fill && (center matches Some(c) ==> c2 == resolve_spec(c, m)) && (center
                    is None ==> c2 is None),
                _ => drawable_of(o, m) is None,
            },
            Object::Polygon { points, color, stroke, fill } => if known_points(points@, m).len()
                == 0 {
                drawable_of(o, m) is None
            } else {
                drawable_of(o, m) == Some(
                    DrawableView::Polygon { points: known_points(points@, m), color, stroke, fill },
                )
            },
            Object::ResolvedCurve { points, color, stroke } => drawable_of(o, m) == Some(
                DrawableView::Curve { points: points@, color, stroke },
            ),
            _ => drawable_of(o, m) is None,
        },
{
}

/// The points of a polygon that resolve, in order: each resolves, and
/// there are no more of them than vertices.
pub proof fn lemma_known_points_bounds<N>(pts: Seq<PointRef<N>>, m: Map<Seq<char>, (N, N)>)
    ensures
        known_points(pts, m).len() <= pts.len(),
        (forall|k: int| 0 <= k < pts.len() ==> #[trigger] resolve_spec(pts[k], m) is Some)
            ==> known_points(pts, m).len() == pts.len() && forall|k: int|
            0 <= k < pts.len() ==> Some(#[trigger] known_points(pts, m)[k]) == resolve_spec(
                pts[k],
                m,
            ),
    decreases pts.len(),
{
    if pts.len() > 0 {
        lemma_known_points_bounds(pts.drop_last(), m);
        if forall|k: int| 0 <= k < pts.len() ==> #[trigger] resolve_spec(pts[k], m) is Some {
            assert forall|k: int| 0 <= k < pts.drop_last().len() implies #[trigger] resolve_spec(
                pts.drop_last()[k],
                m,
            ) is Some by {
                assert(pts.drop_last()[k] == pts[k]);
            }
            assert(resolve_spec(pts[pts.len() - 1], m) is Some);
            assert forall|k: int| 0 <= k < pts.len() implies Some(
                #[trigger] known_points(pts, m)[k],
            ) == resolve_spec(pts[k], m) by {
                if k < pts.len() - 1 {
                    assert(pts.drop_last()[k] == pts[k]);
                }
            }
        }
    }
}

} // verus!
