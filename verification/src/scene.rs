//! A scene: a viewport, a theme, grid and axis settings, and objects.

use vstd::prelude::*;
use crate::color::Color;
use crate::objects::{dir_name, lemma_set_style, same_object, Object, PointRef, SemicircleDir};
use crate::theme::Theme;
use crate::viewport::Viewport;

verus! {

/// What a scene holds.
pub struct SceneView<N> {
    pub viewport: Viewport<N>,
    pub theme: Theme,
    pub grid: bool,
    pub grid_color: Option<Color>,
    pub grid_width: Option<N>,
    pub grid_spacing: Option<N>,
    pub axes: bool,
    pub axis_color: Option<Color>,
    pub axis_width: Option<N>,
    pub axis_label_size: Option<N>,
    pub objects: Seq<Object<N>>,
}

impl<N> SceneView<N> {
    /// The same scene with `o` appended.
    pub open spec fn pushed(self, o: Object<N>) -> SceneView<N> {
        SceneView { objects: self.objects.push(o), ..self }
    }

    /// The same scene with its last object restyled (see
    /// `Object::set_style`); a scene without objects stays as it is.
    pub open spec fn styled_last(self, color: Option<Color>, stroke: Option<N>, fill: Option<Color>) -> SceneView<N> {
        if self.objects.len() == 0 {
            self
        } else {
            SceneView {
                objects: self.objects.update(
                    self.objects.len() - 1,
                    self.objects.last().set_style(color, stroke, fill),
                ),
                ..self
            }
        }
    }

    /// `after` is this scene with one object appended.
    pub open spec fn grew_by(self, after: SceneView<N>) -> bool {
        &&& after.objects.len() == self.objects.len() + 1
        &&& after == self.pushed(after.objects.last())
    }
}

/// Geometry in math coordinates `N`, with its display settings.
#[derive(Debug)]
pub struct Scene<N> {
    viewport: Viewport<N>,
    theme: Theme,
    grid: bool,
    grid_color: Option<Color>,
    grid_width: Option<N>,
    grid_spacing: Option<N>,
    axes: bool,
    axis_color: Option<Color>,
    axis_width: Option<N>,
    axis_label_size: Option<N>,
    objects: Vec<Object<N>>,
}

impl<N> View for Scene<N> {
    type V = SceneView<N>;

    closed spec fn view(&self) -> SceneView<N> {
        SceneView {
            viewport: self.viewport,
            theme: self.theme,
            grid: self.grid,
            grid_color: self.grid_color,
            grid_width: self.grid_width,
            grid_spacing: self.grid_spacing,
            axes: self.axes,
            axis_color: self.axis_color,
            axis_width: self.axis_width,
            axis_label_size: self.axis_label_size,
            objects: self.objects@,
        }
    }
}


/// `a` and `b` hold the same settings, and objects that are the same one
/// by one.
pub open spec fn same_scene<N>(a: SceneView<N>, b: SceneView<N>) -> bool {
    &&& a.objects.len() == b.objects.len()
    &&& forall|i: int| 0 <= i < a.objects.len() ==> same_object(#[trigger] a.objects[i], b.objects[i])
    &&& SceneView { objects: b.objects, ..a } == b
}

impl<N: Copy> Clone for Scene<N> {
    /// A copy of the scene.
    fn clone(&self) -> (s: Self)
        ensures
            same_scene(self@, s@),
    {
        let mut objects: Vec<Object<N>> = Vec::new();
        let mut i: usize = 0;
        while i < self.objects.len()
            invariant
                i <= self.objects@.len(),
                objects@.len() == i,
                forall|j: int| 0 <= j < i ==> same_object(#[trigger] self.objects@[j], objects@[j]),
            decreases self.objects@.len() - i,
        {
            objects.push(self.objects[i].clone());
            i = i + 1;
        }
        Scene {
            viewport: self.viewport,
            theme: self.theme,
            grid: self.grid,
            grid_color: self.grid_color,
            grid_width: self.grid_width,
            grid_spacing: self.grid_spacing,
            axes: self.axes,
            axis_color: self.axis_color,
            axis_width: self.axis_width,
            axis_label_size: self.axis_label_size,
            objects,
        }
    }
}

impl<N: Copy> Scene<N> {
    /// An empty scene over `viewport`: default theme, no grid, no axes.
    pub fn new(viewport: Viewport<N>) -> (s: Self)
        ensures
            s@ == (SceneView {
                viewport,
                theme: Theme::Light,
                grid: false,
                grid_color: None,
                grid_width: None,
                grid_spacing: None,
                axes: false,
                axis_color: None,
                axis_width: None,
                axis_label_size: None,
                objects: Seq::<Object<N>>::empty(),
            }),
    {
        Scene {
            viewport,
            theme: Theme::default(),
            grid: false,
            grid_color: None,
            grid_width: None,
            grid_spacing: None,
            axes: false,
            axis_color: None,
            axis_width: None,
            axis_label_size: None,
            objects: Vec::new(),
        }
    }

    /// The objects, in the order they were added.
    pub fn objects(&self) -> (o: &Vec<Object<N>>)
        ensures
            o@ == self@.objects,
    {
        &self.objects
    }

    pub fn viewport(self, viewport: Viewport<N>) -> (s: Self)
        ensures
            s@ == (SceneView { viewport, ..self@ }),
    {
        let mut sc = self;
        sc.viewport = viewport;
        sc
    }

    pub fn theme(self, theme: Theme) -> (s: Self)
        ensures
            s@ == (SceneView { theme, ..self@ }),
    {
        let mut sc = self;
        sc.theme = theme;
        sc
    }

    pub fn grid(self, grid: bool) -> (s: Self)
        ensures
            s@ == (SceneView { grid, ..self@ }),
    {
        let mut sc = self;
        sc.grid = grid;
        sc
    }

    pub fn grid_color(self, color: Color) -> (s: Self)
        ensures
            s@ == (SceneView { grid_color: Some(color), ..self@ }),
    {
        let mut sc = self;
        sc.grid_color = Some(color);
        sc
    }

    pub fn grid_width(self, width: N) -> (s: Self)
        ensures
            s@ == (SceneView { grid_width: Some(width), ..self@ }),
    {
        let mut sc = self;
        sc.grid_width = Some(width);
        sc
    }

    pub fn grid_spacing(self, spacing: N) -> (s: Self)
        ensures
            s@ == (SceneView { grid_spacing: Some(spacing), ..self@ }),
    {
        let mut sc = self;
        sc.grid_spacing = Some(spacing);
        sc
    }

    pub fn axes(self, axes: bool) -> (s: Self)
        ensures
            s@ == (SceneView { axes, ..self@ }),
    {
        let mut sc = self;
        sc.axes = axes;
        sc
    }

    pub fn axis_color(self, color: Color) -> (s: Self)
        ensures
            s@ == (SceneView { axis_color: Some(color), ..self@ }),
    {
        let mut sc = self;
        sc.axis_color = Some(color);
        sc
    }

    pub fn axis_width(self, width: N) -> (s: Self)
        ensures
            s@ == (SceneView { axis_width: Some(width), ..self@ }),
    {
        let mut sc = self;
        sc.axis_width = Some(width);
        sc
    }

    pub fn axis_label_size(self, size: N) -> (s: Self)
        ensures
            s@ == (SceneView { axis_label_size: Some(size), ..self@ }),
    {
        let mut sc = self;
        sc.axis_label_size = Some(size);
        sc
    }

    /// Define a named point that later objects can reference by name.
    pub fn point_named(self, name: &str, x: N, y: N) -> (s: Self)
        ensures
            self@.grew_by(s@),
            s@.objects.last() matches Object::Point { name: Some(n), coords, color: None, size: None }
                && n@ == name@ && coords == (x, y),
    {
        let mut sc = self;
        sc.objects.push(crate::objects::point(name, x, y));
        sc
    }

    /// Define an unnamed point.
    pub fn point_at(self, x: N, y: N) -> (s: Self)
        ensures
            s@ == self@.pushed(Object::Point { name: None, coords: (x, y), color: None, size: None }),
    {
        let mut sc = self;
        sc.objects.push(crate::objects::point_at(x, y));
        sc
    }

    /// A line between two point references.
    pub fn line(self, from: PointRef<N>, to: PointRef<N>) -> (s: Self)
        ensures
            s@ == self@.pushed(Object::Line { from, to, color: None, stroke: None }),
    {
        let mut sc = self;
        sc.objects.push(crate::objects::line(from, to));
        sc
    }

    pub fn circle(self, center: PointRef<N>, radius: N) -> (s: Self)
        ensures
            s@ == self@.pushed(
                Object::Circle { center, radius, color: None, stroke: None, fill: None },
            ),
    {
        let mut sc = self;
        sc.objects.push(crate::objects::circle(center, radius));
        sc
    }

    pub fn polygon(self, points: Vec<PointRef<N>>) -> (s: Self)
        ensures
            s@ == self@.pushed(Object::Polygon { points, color: None, stroke: None, fill: None }),
    {
        let mut sc = self;
        sc.objects.push(crate::objects::polygon(points));
        sc
    }

    pub fn ellipse(self, center: PointRef<N>, rx: N, ry: N, rotation: Option<N>) -> (s: Self)
        ensures
            s@ == self@.pushed(
                Object::Ellipse { center, rx, ry, rotation, color: None, stroke: None, fill: None },
            ),
    {
        let mut sc = self;
        sc.objects.push(
            Object::Ellipse { center, rx, ry, rotation, color: None, stroke: None, fill: None },
        );
        sc
    }

    pub fn arc(self, center: PointRef<N>, radius: N, start_angle: N, end_angle: N) -> (s: Self)
        ensures
            s@ == self@.pushed(
                Object::Arc { center, radius, start_angle, end_angle, color: None, stroke: None },
            ),
    {
        let mut sc = self;
        sc.objects.push(crate::objects::arc(center, radius, start_angle, end_angle));
        sc
    }

    pub fn semicircle(
        self,
        from: PointRef<N>,
        to: PointRef<N>,
        center: Option<PointRef<N>>,
        dir: SemicircleDir,
    ) -> (s: Self)
        ensures
            self@.grew_by(s@),
            s@.objects.last() matches Object::Semicircle {
                from: f,
                to: t,
                center: c,
                dir: d,
                color: None,
                stroke: None,
                fill: None,
            } && f == from && t == to && c == center && d@ == dir_name(dir),
    {
        let mut sc = self;
        sc.objects.push(
            Object::Semicircle {
                from,
                to,
                center,
                dir: dir.as_str().to_owned(),
                color: None,
                stroke: None,
                fill: None,
            },
        );
        sc
    }

    /// Plot `y = f(var)` for `var` in `[t_min, t_max]`.
    pub fn curve(self, expr: &str, var: &str, t_min: N, t_max: N) -> (s: Self)
        ensures
            self@.grew_by(s@),
            s@.objects.last() matches Object::Curve {
                expr_str,
                t_min: lo,
                t_max: hi,
                var_name,
                samples: None,
                tolerance: None,
                color: None,
                stroke: None,
            } && expr_str@ == expr@ && var_name@ == var@ && lo == Some(t_min) && hi == Some(t_max),
    {
        self.curve_with(expr, var, t_min, t_max, None, None)
    }

    /// Plot `y = f(var)` with an explicit base sample count and tolerance
    /// (`None`: the defaults).
    pub fn curve_with(
        self,
        expr: &str,
        var: &str,
        t_min: N,
        t_max: N,
        samples: Option<usize>,
        tolerance: Option<N>,
    ) -> (s: Self)
        ensures
            self@.grew_by(s@),
            s@.objects.last() matches Object::Curve {
                expr_str,
                t_min: lo,
                t_max: hi,
                var_name,
                samples: k,
                tolerance: tol,
                color: None,
                stroke: None,
            } && expr_str@ == expr@ && var_name@ == var@ && lo == Some(t_min) && hi == Some(t_max)
                && k == samples && tol == tolerance,
    {
        let mut sc = self;
        sc.objects.push(
            Object::Curve {
                expr_str: expr.to_owned(),
                var_name: var.to_owned(),
                t_min: Some(t_min),
                t_max: Some(t_max),
                samples,
                tolerance,
                color: None,
                stroke: None,
            },
        );
        sc
    }

    /// Plot the parametric curve `(x(t), y(t))` for `t` in `[t_min, t_max]`.
    pub fn curve_param(self, x_expr: &str, y_expr: &str, t_min: N, t_max: N) -> (s: Self)
        ensures
            self@.grew_by(s@),
            s@.objects.last() matches Object::CurveParam {
                x_expr: xe,
                y_expr: ye,
                t_min: lo,
                t_max: hi,
                samples: None,
                tolerance: None,
                color: None,
                stroke: None,
            } && xe@ == x_expr@ && ye@ == y_expr@ && lo == Some(t_min) && hi == Some(t_max),
    {
        self.curve_param_with(x_expr, y_expr, t_min, t_max, None, None)
    }

    /// Plot a parametric curve with an explicit base sample count and
    /// tolerance.
    pub fn curve_param_with(
        self,
        x_expr: &str,
        y_expr: &str,
        t_min: N,
        t_max: N,
        samples: Option<usize>,
        tolerance: Option<N>,
    ) -> (s: Self)
        ensures
            self@.grew_by(s@),
            s@.objects.last() matches Object::CurveParam {
                x_expr: xe,
                y_expr: ye,
                t_min: lo,
                t_max: hi,
                samples: k,
                tolerance: tol,
                color: None,
                stroke: None,
            } && xe@ == x_expr@ && ye@ == y_expr@ && lo == Some(t_min) && hi == Some(t_max) && k
                == samples && tol == tolerance,
    {
        let mut sc = self;
        sc.objects.push(
            Object::CurveParam {
                x_expr: x_expr.to_owned(),
                y_expr: y_expr.to_owned(),
                t_min: Some(t_min),
                t_max: Some(t_max),
                samples,
                tolerance,
                color: None,
                stroke: None,
            },
        );
        sc
    }

    /// Append a pre-resolved polyline.
    pub fn polyline(self, points: Vec<(N, N)>) -> (s: Self)
        ensures
            s@ == self@.pushed(Object::ResolvedCurve { points, color: None, stroke: None }),
    {
        let mut sc = self;
        sc.objects.push(Object::ResolvedCurve { points, color: None, stroke: None });
        sc
    }

    /// Append an object.
    pub fn push(self, obj: Object<N>) -> (s: Self)
        ensures
            s@ == self@.pushed(obj),
    {
        let mut sc = self;
        sc.objects.push(obj);
        sc
    }

    /// Append many objects, in order.
    pub fn extend(self, objs: Vec<Object<N>>) -> (s: Self)
        ensures
            s@ == (SceneView { objects: self@.objects + objs@, ..self@ }),
    {
        let mut sc = self;
        let mut objs = objs;
        sc.objects.append(&mut objs);
        sc
    }

    /// Style the most recently added object: its color, and its stroke and
    /// fill where its kind has them. A scene without objects stays as it is.
    pub fn style_last(self, color: Option<Color>, stroke: Option<N>, fill: Option<Color>) -> (s: Self)
        ensures
            s@ == self@.styled_last(color, stroke, fill),
    {
        let mut sc = self;
        let ghost before = sc.objects@;
        match sc.objects.pop() {
            Some(obj) => {
                sc.objects.push(obj.restyle(color, stroke, fill));
                proof {
                    assert(sc.objects@ =~= before.update(
                        before.len() - 1,
                        before.last().set_style(color, stroke, fill),
                    ));
                }
                sc
            },
            None => sc,
        }
    }
}


/// Styling the last object right after pushing `o` gives the scene with
/// `o` pushed already styled.
pub proof fn lemma_style_after_push<N>(
    v: SceneView<N>,
    o: Object<N>,
    color: Option<Color>,
    stroke: Option<N>,
    fill: Option<Color>,
)
    ensures
        v.pushed(o).styled_last(color, stroke, fill) == v.pushed(o.set_style(color, stroke, fill)),
{
    assert(v.pushed(o).objects.update(v.objects.len() as int, o.set_style(color, stroke, fill))
        =~= v.objects.push(o.set_style(color, stroke, fill)));
}

/// A second `style_last` replaces every style the first one set.
pub proof fn lemma_style_last_twice<N>(
    v: SceneView<N>,
    color: Option<Color>,
    stroke: Option<N>,
    fill: Option<Color>,
    color2: Option<Color>,
    stroke2: Option<N>,
    fill2: Option<Color>,
)
    ensures
        v.styled_last(color, stroke, fill).styled_last(color2, stroke2, fill2) == v.styled_last(
            color2,
            stroke2,
            fill2,
        ),
{
    if v.objects.len() > 0 {
        lemma_set_style(v.objects.last(), color, stroke, fill, color2, stroke2, fill2);
        let once = v.styled_last(color, stroke, fill);
        assert(once.objects.last() == v.objects.last().set_style(color, stroke, fill));
        assert(once.objects.update(once.objects.len() - 1, once.objects.last().set_style(
            color2,
            stroke2,
            fill2,
        )) =~= v.objects.update(
            v.objects.len() - 1,
            v.objects.last().set_style(color2, stroke2, fill2),
        ));
    }
}

/// Appending objects one by one, in order, gives what `extend` gives.
pub proof fn lemma_extend_is_pushes<N>(v: SceneView<N>, objs: Seq<Object<N>>)
    ensures
        pushed_all(v, objs) == (SceneView { objects: v.objects + objs, ..v }),
    decreases objs.len(),
{
    if objs.len() > 0 {
        lemma_extend_is_pushes(v.pushed(objs[0]), objs.drop_first());
        assert(v.objects.push(objs[0]) + objs.drop_first() =~= v.objects + objs);
    } else {
        assert(v.objects + objs =~= v.objects);
    }
}

/// `v` with `objs` pushed one by one, in order.
pub open spec fn pushed_all<N>(v: SceneView<N>, objs: Seq<Object<N>>) -> SceneView<N>
    decreases objs.len(),
{
    if objs.len() == 0 {
        v
    } else {
        pushed_all(v.pushed(objs[0]), objs.drop_first())
    }
}

/// Errors that can occur while rendering a scene.
#[derive(Debug)]
pub enum RenderError {
    Svg(String),
    Pixmap,
    Png(String),
}

/// The message that describes an error.
pub open spec fn render_error_message(e: RenderError) -> Seq<char> {
    match e {
        RenderError::Svg(m) => "invalid SVG for rasterization: "@ + m@,
        RenderError::Pixmap => "failed to allocate pixel buffer"@,
        RenderError::Png(m) => "PNG encoding failed: "@ + m@,
    }
}

impl RenderError {
    /// The message that describes this error.
    pub fn message(&self) -> (m: String)
        ensures
            m@ == render_error_message(*self),
    {
        match self {
            RenderError::Svg(e) => "invalid SVG for rasterization: ".to_owned().concat(e.as_str()),
            RenderError::Pixmap => "failed to allocate pixel buffer".to_owned(),
            RenderError::Png(e) => "PNG encoding failed: ".to_owned().concat(e.as_str()),
        }
    }
}

/// An output format for scenes: implement it to add a renderer.
pub trait Renderer<N> {
    type Output;

    type Error;

    fn render(&self, scene: &Scene<N>) -> Result<Self::Output, Self::Error>;
}

/// The built-in SVG renderer.
#[derive(Debug, Clone, Copy, Default)]
pub struct SvgRenderer;

impl<N: Copy> Scene<N> {
    /// Render with any `Renderer`.
    pub fn render_with<R: Renderer<N>>(&self, renderer: R) -> (r: Result<R::Output, R::Error>)
        ensures
            call_ensures(R::render, (&renderer, self), r),
    {
        renderer.render(self)
    }
}

} // verus!
