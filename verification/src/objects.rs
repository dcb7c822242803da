//! The geometric objects of a scene.

use vstd::prelude::*;
use crate::color::{parse_color, Color};
use crate::viewport::Viewport;
use crate::text::{
    all_ascii, ascii_lower, lowercase, same_chars, to_lowercase, trim, trim_end, trim_start, trim_str,
};

verus! {

/// Direction of a semicircle bulge (`cw` / `ccw`).
#[derive(Debug, Clone, Copy, PartialEq, Eq, Structural)]
pub enum SemicircleDir {
    Clockwise,
    CounterClockwise,
}

/// The short name of a direction.
pub open spec fn dir_name(d: SemicircleDir) -> Seq<char> {
    match d {
        SemicircleDir::Clockwise => seq!['c', 'w'],
        SemicircleDir::CounterClockwise => seq!['c', 'c', 'w'],
    }
}

/// The direction that a lowercase, trimmed name stands for.
pub open spec fn dir_from_name(t: Seq<char>) -> Option<SemicircleDir> {
    if t == "cw"@ || t == "clockwise"@ {
        Some(SemicircleDir::Clockwise)
    } else if t == "ccw"@ || t == "counterclockwise"@ || t == "counter-clockwise"@ {
        Some(SemicircleDir::CounterClockwise)
    } else {
        None
    }
}

/// What `SemicircleDir::parse` gives for a string.
pub open spec fn parse_dir(s: Seq<char>) -> Option<SemicircleDir> {
    dir_from_name(lowercase(trim(s)))
}

impl SemicircleDir {
    /// `"cw"` or `"ccw"`.
    pub fn as_str(self) -> (s: &'static str)
        ensures
            s@ == dir_name(self),
    {
        match self {
            SemicircleDir::Clockwise => {
                proof {
                    reveal_strlit("cw");
                }
                "cw"
            },
            SemicircleDir::CounterClockwise => {
                proof {
                    reveal_strlit("ccw");
                }
                "ccw"
            },
        }
    }

    /// The direction named by an already trimmed, lowercase name.
    pub fn from_name(t: &str) -> (r: Option<Self>)
        ensures
            r == dir_from_name(t@),
    {
        if same_chars(t, "cw") || same_chars(t, "clockwise") {
            Some(SemicircleDir::Clockwise)
        } else if same_chars(t, "ccw") || same_chars(t, "counterclockwise") || same_chars(
            t,
            "counter-clockwise",
        ) {
            Some(SemicircleDir::CounterClockwise)
        } else {
            None
        }
    }

    /// Parse direction names: `cw`, `ccw`, `clockwise`, `counterclockwise`,
    /// `counter-clockwise` (case-insensitive, surrounding white space ignored).
    pub fn parse(s: &str) -> (r: Option<Self>)
        ensures
            r == parse_dir(s@),
            all_ascii(trim(s@)) ==> r == dir_from_name(ascii_lower(trim(s@))),
    {
        let t = trim_str(s);
        let lower = to_lowercase(t);
        Self::from_name(lower.as_str())
    }
}

/// The short name of a direction parses back to that direction.
pub proof fn lemma_dir_name_parses_back(d: SemicircleDir)
    ensures
        all_ascii(trim(dir_name(d))),
        dir_from_name(ascii_lower(trim(dir_name(d)))) == Some(d),
{
    reveal_strlit("cw");
    reveal_strlit("ccw");
    reveal_strlit("clockwise");
    reveal_strlit("counterclockwise");
    reveal_strlit("counter-clockwise");
    let n = dir_name(d);
    assert(trim_start(n) == n);
    assert(trim_end(n) == n);
    assert(ascii_lower(n) =~= n);
    match d {
        SemicircleDir::Clockwise => assert(n =~= "cw"@),
        SemicircleDir::CounterClockwise => {
            assert(n =~= "ccw"@);
            assert(n != "cw"@);
            assert(n != "clockwise"@);
        },
    }
}

/// The message of a refused direction name.
pub open spec fn dir_error(s: Seq<char>) -> Seq<char> {
    "dir must be CW or CCW, got "@ + s
}

impl std::str::FromStr for SemicircleDir {
    type Err = String;

    fn from_str(s: &str) -> (r: Result<Self, String>)
        ensures
            match r {
                Ok(d) => parse_dir(s@) == Some(d),
                Err(e) => parse_dir(s@) is None && e@ == dir_error(s@),
            },
    {
        match SemicircleDir::parse(s) {
            Some(d) => Ok(d),
            None => Err("dir must be CW or CCW, got ".to_owned().concat(s)),
        }
    }
}


/// A reference to a point: a name (`"A"`) or literal coordinates.
#[derive(Debug, Clone)]
pub enum PointRef<N> {
    Named(String),
    Coords(N, N),
}

/// The coordinates that `p` stands for under the named points `m`.
pub open spec fn resolve_spec<N>(p: PointRef<N>, m: Map<Seq<char>, (N, N)>) -> Option<(N, N)> {
    match p {
        PointRef::Named(n) => if m.contains_key(n@) {
            Some(m[n@])
        } else {
            None
        },
        PointRef::Coords(x, y) => Some((x, y)),
    }
}

/// `p` with a known name replaced by its coordinates.
pub open spec fn resolve_ref_spec<N>(p: PointRef<N>, m: Map<Seq<char>, (N, N)>) -> PointRef<N> {
    match p {
        PointRef::Named(n) => if m.contains_key(n@) {
            PointRef::Coords(m[n@].0, m[n@].1)
        } else {
            PointRef::Named(n)
        },
        PointRef::Coords(x, y) => PointRef::Coords(x, y),
    }
}

impl<N: Copy> PointRef<N> {
    /// Reference a named point.
    pub fn named(name: &str) -> (p: Self)
        ensures
            p matches PointRef::Named(n) && n@ == name@,
    {
        PointRef::Named(name.to_owned())
    }

    /// Reference literal coordinates.
    pub fn at(x: N, y: N) -> (p: Self)
        ensures
            p == PointRef::<N>::Coords(x, y),
    {
        PointRef::Coords(x, y)
    }

    /// The coordinates this reference stands for, if its name is known.
    pub fn resolve(&self, lookup: &PointLookup<N>) -> (r: Option<(N, N)>)
        ensures
            r == resolve_spec(*self, lookup@),
    {
        match self {
            PointRef::Named(name) => lookup.get(name.as_str()),
            PointRef::Coords(x, y) => Some((*x, *y)),
        }
    }
}

impl<N: Copy> From<(N, N)> for PointRef<N> {
    fn from(c: (N, N)) -> (p: Self) {
        PointRef::Coords(c.0, c.1)
    }
}

impl<N: Copy> vstd::std_specs::convert::FromSpecImpl<(N, N)> for PointRef<N> {
    open spec fn obeys_from_spec() -> bool {
        true
    }

    open spec fn from_spec(c: (N, N)) -> Self {
        PointRef::Coords(c.0, c.1)
    }
}

impl<'a, N> From<&'a str> for PointRef<N> {
    /// A reference to the point named `s`.
    fn from(s: &'a str) -> (p: Self)
        ensures
            p matches PointRef::Named(n) && n@ == s@,
    {
        PointRef::Named(s.to_owned())
    }
}

impl<'a, N> vstd::std_specs::convert::FromSpecImpl<&'a str> for PointRef<N> {
    /// A `String` cannot be written down in a specification, so the
    /// conversion promises what its own `ensures` says and no `from_spec`.
    open spec fn obeys_from_spec() -> bool {
        false
    }

    open spec fn from_spec(s: &'a str) -> Self {
        vstd::pervasive::arbitrary()
    }
}

impl<N> From<String> for PointRef<N> {
    /// A reference to the point named `s`.
    fn from(s: String) -> (p: Self)
        ensures
            p == PointRef::<N>::Named(s),
    {
        PointRef::Named(s)
    }
}

impl<N> vstd::std_specs::convert::FromSpecImpl<String> for PointRef<N> {
    open spec fn obeys_from_spec() -> bool {
        true
    }

    open spec fn from_spec(s: String) -> Self {
        PointRef::Named(s)
    }
}

/// The named points of a scene: name to coordinates, a later definition of
/// a name replacing an earlier one.
pub struct PointLookup<N> {
    entries: Vec<(String, (N, N))>,
}

/// The map that a list of definitions gives, later ones winning.
pub open spec fn entries_map<N>(s: Seq<(String, (N, N))>) -> Map<Seq<char>, (N, N)>
    decreases s.len(),
{
    if s.len() == 0 {
        Map::empty()
    } else {
        entries_map(s.drop_last()).insert(s.last().0@, s.last().1)
    }
}

/// A key that no entry from `lo` on defines keeps the value it had before.
proof fn lemma_entries_map_suffix<N>(s: Seq<(String, (N, N))>, k: Seq<char>, lo: int)
    requires
        0 <= lo <= s.len(),
        forall|i: int| lo <= i < s.len() ==> (#[trigger] s[i]).0@ != k,
    ensures
        entries_map(s).contains_key(k) == entries_map(s.take(lo)).contains_key(k),
        entries_map(s).contains_key(k) ==> entries_map(s)[k] == entries_map(s.take(lo))[k],
    decreases s.len() - lo,
{
    if lo < s.len() {
        assert(s.drop_last().take(lo) == s.take(lo));
        lemma_entries_map_suffix(s.drop_last(), k, lo);
        assert(s.last() == s[s.len() - 1]);
    } else {
        assert(s.take(lo) == s);
    }
}

impl<N> View for PointLookup<N> {
    type V = Map<Seq<char>, (N, N)>;

    closed spec fn view(&self) -> Map<Seq<char>, (N, N)> {
        entries_map(self.entries@)
    }
}

impl<N: Copy> PointLookup<N> {
    /// No named points.
    pub fn new() -> (l: Self)
        ensures
            l@ == Map::<Seq<char>, (N, N)>::empty(),
    {
        PointLookup { entries: Vec::new() }
    }

    /// Define (or redefine) `name`.
    pub fn insert(&mut self, name: String, coords: (N, N))
        ensures
            final(self)@ == old(self)@.insert(name@, coords),
    {
        let ghost before = self.entries@;
        self.entries.push((name, coords));
        proof {
            assert(self.entries@.drop_last() == before);
        }
    }

    /// The coordinates of `name`, if it is defined.
    pub fn get(&self, name: &str) -> (r: Option<(N, N)>)
        ensures
            r == (if self@.contains_key(name@) {
                Some(self@[name@])
            } else {
                None::<(N, N)>
            }),
    {
        let mut i = self.entries.len();
        while i > 0
            invariant
                i <= self.entries@.len(),
                forall|j: int| i <= j < self.entries@.len() ==> (#[trigger] self.entries@[j]).0@
                    != name@,
            decreases i,
        {
            i = i - 1;
            if same_chars(self.entries[i].0.as_str(), name) {
                proof {
                    let s = self.entries@;
                    lemma_entries_map_suffix(s, name@, i + 1);
                    assert(s.take(i + 1).drop_last() == s.take(i as int));
                    assert(s.take(i + 1).last() == s[i as int]);
                }
                return Some(self.entries[i].1);
            }
        }
        proof {
            let s = self.entries@;
            lemma_entries_map_suffix(s, name@, 0);
            assert(s.take(0) == Seq::<(String, (N, N))>::empty());
        }
        None
    }
}

/// A geometric object of a scene, in math coordinates `N`.
#[derive(Debug)]
pub enum Object<N> {
    Point { name: Option<String>, coords: (N, N), color: Option<Color>, size: Option<N> },
    Line { from: PointRef<N>, to: PointRef<N>, color: Option<Color>, stroke: Option<N> },
    Circle {
        center: PointRef<N>,
        radius: N,
        color: Option<Color>,
        stroke: Option<N>,
        fill: Option<Color>,
    },
    Polygon {
        points: Vec<PointRef<N>>,
        color: Option<Color>,
        stroke: Option<N>,
        fill: Option<Color>,
    },
    Ellipse {
        center: PointRef<N>,
        rx: N,
        ry: N,
        rotation: Option<N>,
        color: Option<Color>,
        stroke: Option<N>,
        fill: Option<Color>,
    },
    Arc {
        center: PointRef<N>,
        radius: N,
        start_angle: N,
        end_angle: N,
        color: Option<Color>,
        stroke: Option<N>,
    },
    Semicircle {
        from: PointRef<N>,
        to: PointRef<N>,
        center: Option<PointRef<N>>,
        dir: String,
        color: Option<Color>,
        stroke: Option<N>,
        fill: Option<Color>,
    },
    Curve {
        expr_str: String,
        t_min: Option<N>,
        t_max: Option<N>,
        var_name: String,
        samples: Option<usize>,
        tolerance: Option<N>,
        color: Option<Color>,
        stroke: Option<N>,
    },
    CurveParam {
        x_expr: String,
        y_expr: String,
        t_min: Option<N>,
        t_max: Option<N>,
        samples: Option<usize>,
        tolerance: Option<N>,
        color: Option<Color>,
        stroke: Option<N>,
    },
    ResolvedCurve { points: Vec<(N, N)>, color: Option<Color>, stroke: Option<N> },
}

impl<N> Object<N> {
    /// The object's color.
    pub open spec fn color_of(self) -> Option<Color> {
        match self {
            Object::Point { color, .. } => color,
            Object::Line { color, .. } => color,
            Object::Circle { color, .. } => color,
            Object::Polygon { color, .. } => color,
            Object::Ellipse { color, .. } => color,
            Object::Arc { color, .. } => color,
            Object::Semicircle { color, .. } => color,
            Object::Curve { color, .. } => color,
            Object::CurveParam { color, .. } => color,
            Object::ResolvedCurve { color, .. } => color,
        }
    }

    /// The object has a stroke width (every kind but a point).
    pub open spec fn has_stroke(self) -> bool {
        !(self is Point)
    }

    /// The object has a fill (circles, polygons, ellipses, semicircles).
    pub open spec fn has_fill(self) -> bool {
        self is Circle || self is Polygon || self is Ellipse || self is Semicircle
    }

    /// The object's stroke width (`None` for a point).
    pub open spec fn stroke_of(self) -> Option<N> {
        match self {
            Object::Point { .. } => None,
            Object::Line { stroke, .. } => stroke,
            Object::Circle { stroke, .. } => stroke,
            Object::Polygon { stroke, .. } => stroke,
            Object::Ellipse { stroke, .. } => stroke,
            Object::Arc { stroke, .. } => stroke,
            Object::Semicircle { stroke, .. } => stroke,
            Object::Curve { stroke, .. } => stroke,
            Object::CurveParam { stroke, .. } => stroke,
            Object::ResolvedCurve { stroke, .. } => stroke,
        }
    }

    /// The object's fill (`None` for kinds without one).
    pub open spec fn fill_of(self) -> Option<Color> {
        match self {
            Object::Circle { fill, .. } => fill,
            Object::Polygon { fill, .. } => fill,
            Object::Ellipse { fill, .. } => fill,
            Object::Semicircle { fill, .. } => fill,
            _ => None,
        }
    }

    /// The object with its style set: `color` always, `stroke` where the
    /// kind has one, `fill` where the kind has one; nothing else changes.
    pub open spec fn set_style(self, color: Option<Color>, stroke: Option<N>, fill: Option<Color>) -> Self {
        match self {
            Object::Point { name, coords, size, .. } => Object::Point { name, coords, color, size },
            Object::Line { from, to, .. } => Object::Line { from, to, color, stroke },
            Object::Circle { center, radius, .. } => Object::Circle {
                center,
                radius,
                color,
                stroke,
                fill,
            },
            Object::Polygon { points, .. } => Object::Polygon { points, color, stroke, fill },
            Object::Ellipse { center, rx, ry, rotation, .. } => Object::Ellipse {
                center,
                rx,
                ry,
                rotation,
                color,
                stroke,
                fill,
            },
            Object::Arc { center, radius, start_angle, end_angle, .. } => Object::Arc {
                center,
                radius,
                start_angle,
                end_angle,
                color,
                stroke,
            },
            Object::Semicircle { from, to, center, dir, .. } => Object::Semicircle {
                from,
                to,
                center,
                dir,
                color,
                stroke,
                fill,
            },
            Object::Curve { expr_str, t_min, t_max, var_name, samples, tolerance, .. } =>
                Object::Curve {
                expr_str,
                t_min,
                t_max,
                var_name,
                samples,
                tolerance,
                color,
                stroke,
            },
            Object::CurveParam { x_expr, y_expr, t_min, t_max, samples, tolerance, .. } =>
                Object::CurveParam {
                x_expr,
                y_expr,
                t_min,
                t_max,
                samples,
                tolerance,
                color,
                stroke,
            },
            Object::ResolvedCurve { points, .. } => Object::ResolvedCurve { points, color, stroke },
        }
    }

    /// The object with point size `size` if it is a point.
    pub open spec fn set_size(self, size: N) -> Self {
        match self {
            Object::Point { name, coords, color, .. } => Object::Point {
                name,
                coords,
                color,
                size: Some(size),
            },
            _ => self,
        }
    }

    /// The object with rotation `deg` if it is an ellipse.
    pub open spec fn set_rotation(self, deg: N) -> Self {
        match self {
            Object::Ellipse { center, rx, ry, color, stroke, fill, .. } => Object::Ellipse {
                center,
                rx,
                ry,
                rotation: Some(deg),
                color,
                stroke,
                fill,
            },
            _ => self,
        }
    }

    /// The object with range `[lo, hi]` if it is a curve.
    pub open spec fn set_range(self, lo: N, hi: N) -> Self {
        match self {
            Object::Curve { expr_str, var_name, samples, tolerance, color, stroke, .. } =>
                Object::Curve {
                expr_str,
                t_min: Some(lo),
                t_max: Some(hi),
                var_name,
                samples,
                tolerance,
                color,
                stroke,
            },
            Object::CurveParam { x_expr, y_expr, samples, tolerance, color, stroke, .. } =>
                Object::CurveParam {
                x_expr,
                y_expr,
                t_min: Some(lo),
                t_max: Some(hi),
                samples,
                tolerance,
                color,
                stroke,
            },
            _ => self,
        }
    }

    /// The object with base sample count `n` (at least 2) if it is a curve.
    pub open spec fn set_samples(self, n: usize) -> Self {
        let k = if n < 2 { 2 } else { n };
        match self {
            Object::Curve { expr_str, t_min, t_max, var_name, tolerance, color, stroke, .. } =>
                Object::Curve {
                expr_str,
                t_min,
                t_max,
                var_name,
                samples: Some(k),
                tolerance,
                color,
                stroke,
            },
            Object::CurveParam { x_expr, y_expr, t_min, t_max, tolerance, color, stroke, .. } =>
                Object::CurveParam {
                x_expr,
                y_expr,
                t_min,
                t_max,
                samples: Some(k),
                tolerance,
                color,
                stroke,
            },
            _ => self,
        }
    }

    /// The object with subdivision tolerance `tol` if it is a curve.
    pub open spec fn set_tolerance(self, tol: N) -> Self {
        match self {
            Object::Curve { expr_str, t_min, t_max, var_name, samples, color, stroke, .. } =>
                Object::Curve {
                expr_str,
                t_min,
                t_max,
                var_name,
                samples,
                tolerance: Some(tol),
                color,
                stroke,
            },
            Object::CurveParam { x_expr, y_expr, t_min, t_max, samples, color, stroke, .. } =>
                Object::CurveParam {
                x_expr,
                y_expr,
                t_min,
                t_max,
                samples,
                tolerance: Some(tol),
                color,
                stroke,
            },
            _ => self,
        }
    }
}

impl<N: Copy> Object<N> {
    /// Executable `color_of`.
    fn color_opt(&self) -> (c: Option<Color>)
        ensures
            c == self.color_of(),
    {
        match self {
            Object::Point { color, .. } => *color,
            Object::Line { color, .. } => *color,
            Object::Circle { color, .. } => *color,
            Object::Polygon { color, .. } => *color,
            Object::Ellipse { color, .. } => *color,
            Object::Arc { color, .. } => *color,
            Object::Semicircle { color, .. } => *color,
            Object::Curve { color, .. } => *color,
            Object::CurveParam { color, .. } => *color,
            Object::ResolvedCurve { color, .. } => *color,
        }
    }

    /// Executable `stroke_of`.
    fn stroke_opt(&self) -> (s: Option<N>)
        ensures
            s == self.stroke_of(),
    {
        match self {
            Object::Point { .. } => None,
            Object::Line { stroke, .. } => *stroke,
            Object::Circle { stroke, .. } => *stroke,
            Object::Polygon { stroke, .. } => *stroke,
            Object::Ellipse { stroke, .. } => *stroke,
            Object::Arc { stroke, .. } => *stroke,
            Object::Semicircle { stroke, .. } => *stroke,
            Object::Curve { stroke, .. } => *stroke,
            Object::CurveParam { stroke, .. } => *stroke,
            Object::ResolvedCurve { stroke, .. } => *stroke,
        }
    }

    /// Executable `fill_of`.
    fn fill_opt(&self) -> (f: Option<Color>)
        ensures
            f == self.fill_of(),
    {
        match self {
            Object::Circle { fill, .. } => *fill,
            Object::Polygon { fill, .. } => *fill,
            Object::Ellipse { fill, .. } => *fill,
            Object::Semicircle { fill, .. } => *fill,
            _ => None,
        }
    }

    /// Set the style fields that the kind has (see `set_style`).
    pub fn restyle(self, color: Option<Color>, stroke: Option<N>, fill: Option<Color>) -> (o: Self)
        ensures
            o == self.set_style(color, stroke, fill),
    {
        match self {
            Object::Point { name, coords, size, .. } => Object::Point { name, coords, color, size },
            Object::Line { from, to, .. } => Object::Line { from, to, color, stroke },
            Object::Circle { center, radius, .. } => Object::Circle {
                center,
                radius,
                color,
                stroke,
                fill,
            },
            Object::Polygon { points, .. } => Object::Polygon { points, color, stroke, fill },
            Object::Ellipse { center, rx, ry, rotation, .. } => Object::Ellipse {
                center,
                rx,
                ry,
                rotation,
                color,
                stroke,
                fill,
            },
            Object::Arc { center, radius, start_angle, end_angle, .. } => Object::Arc {
                center,
                radius,
                start_angle,
                end_angle,
                color,
                stroke,
            },
            Object::Semicircle { from, to, center, dir, .. } => Object::Semicircle {
                from,
                to,
                center,
                dir,
                color,
                stroke,
                fill,
            },
            Object::Curve { expr_str, t_min, t_max, var_name, samples, tolerance, .. } =>
                Object::Curve {
                expr_str,
                t_min,
                t_max,
                var_name,
                samples,
                tolerance,
                color,
                stroke,
            },
            Object::CurveParam { x_expr, y_expr, t_min, t_max, samples, tolerance, .. } =>
                Object::CurveParam {
                x_expr,
                y_expr,
                t_min,
                t_max,
                samples,
                tolerance,
                color,
                stroke,
            },
            Object::ResolvedCurve { points, .. } => Object::ResolvedCurve { points, color, stroke },
        }
    }

    /// Set `color`.
    pub fn with_color(self, color: Color) -> (o: Self)
        ensures
            o == self.set_style(Some(color), self.stroke_of(), self.fill_of()),
    {
        let s = self.stroke_opt();
        let f = self.fill_opt();
        self.restyle(Some(color), s, f)
    }

    /// Set the stroke width (a point has none and stays as it is).
    pub fn with_stroke(self, stroke: N) -> (o: Self)
        ensures
            o == self.set_style(self.color_of(), Some(stroke), self.fill_of()),
    {
        let c = self.color_opt();
        let f = self.fill_opt();
        self.restyle(c, Some(stroke), f)
    }

    /// Set the fill color (kinds without a fill stay as they are).
    pub fn with_fill(self, fill: Color) -> (o: Self)
        ensures
            o == self.set_style(self.color_of(), self.stroke_of(), Some(fill)),
    {
        let c = self.color_opt();
        let s = self.stroke_opt();
        self.restyle(c, s, Some(fill))
    }

    /// Set the point size (other kinds stay as they are).
    pub fn with_size(self, size: N) -> (o: Self)
        ensures
            o == self.set_size(size),
    {
        match self {
            Object::Point { name, coords, color, .. } => Object::Point {
                name,
                coords,
                color,
                size: Some(size),
            },
            other => other,
        }
    }

    /// Set an ellipse's rotation in degrees (other kinds stay as they are).
    pub fn with_rotation(self, degrees: N) -> (o: Self)
        ensures
            o == self.set_rotation(degrees),
    {
        match self {
            Object::Ellipse { center, rx, ry, color, stroke, fill, .. } => Object::Ellipse {
                center,
                rx,
                ry,
                rotation: Some(degrees),
                color,
                stroke,
                fill,
            },
            other => other,
        }
    }

    /// Set a semicircle's direction (other kinds stay as they are).
    pub fn with_dir(self, dir: SemicircleDir) -> (o: Self)
        ensures
            match self {
                Object::Semicircle { from, to, center, color, stroke, fill, .. } => o matches Object::Semicircle {
                    from: f2,
                    to: t2,
                    center: c2,
                    dir: d2,
                    color: col2,
                    stroke: s2,
                    fill: fi2,
                } && f2 == from && t2 == to && c2 == center && d2@ == dir_name(dir) && col2 == color
                    && s2 == stroke && fi2 == fill,
                _ => o == self,
            },
    {
        match self {
            Object::Semicircle { from, to, center, color, stroke, fill, .. } => Object::Semicircle {
                from,
                to,
                center,
                dir: dir.as_str().to_owned(),
                color,
                stroke,
                fill,
            },
            other => other,
        }
    }

    /// Set a semicircle's explicit center (other kinds stay as they are).
    pub fn with_center(self, center: PointRef<N>) -> (o: Self)
        ensures
            o == (match self {
                Object::Semicircle { from, to, dir, color, stroke, fill, .. } => Object::Semicircle {
                    from,
                    to,
                    center: Some(center),
                    dir,
                    color,
                    stroke,
                    fill,
                },
                _ => self,
            }),
    {
        match self {
            Object::Semicircle { from, to, dir, color, stroke, fill, .. } => Object::Semicircle {
                from,
                to,
                center: Some(center),
                dir,
                color,
                stroke,
                fill,
            },
            other => other,
        }
    }

    /// Set a curve's variable name (other kinds stay as they are).
    pub fn with_var(self, var: &str) -> (o: Self)
        ensures
            match self {
                Object::Curve { expr_str, t_min, t_max, samples, tolerance, color, stroke, .. } => o matches Object::Curve {
                    expr_str: e2,
                    t_min: lo2,
                    t_max: hi2,
                    var_name: v2,
                    samples: s2,
                    tolerance: tol2,
                    color: c2,
                    stroke: st2,
                } && e2 == expr_str && lo2 == t_min && hi2 == t_max && v2@ == var@ && s2 == samples
                    && tol2 == tolerance && c2 == color && st2 == stroke,
                _ => o == self,
            },
    {
        match self {
            Object::Curve { expr_str, t_min, t_max, samples, tolerance, color, stroke, .. } =>
                Object::Curve {
                expr_str,
                t_min,
                t_max,
                var_name: var.to_owned(),
                samples,
                tolerance,
                color,
                stroke,
            },
            other => other,
        }
    }

    /// Set a curve's sampling range (other kinds stay as they are).
    pub fn with_range(self, t_min: N, t_max: N) -> (o: Self)
        ensures
            o == self.set_range(t_min, t_max),
    {
        match self {
            Object::Curve { expr_str, var_name, samples, tolerance, color, stroke, .. } =>
                Object::Curve {
                expr_str,
                t_min: Some(t_min),
                t_max: Some(t_max),
                var_name,
                samples,
                tolerance,
                color,
                stroke,
            },
            Object::CurveParam { x_expr, y_expr, samples, tolerance, color, stroke, .. } =>
                Object::CurveParam {
                x_expr,
                y_expr,
                t_min: Some(t_min),
                t_max: Some(t_max),
                samples,
                tolerance,
                color,
                stroke,
            },
            other => other,
        }
    }

    /// Set a curve's base sample count, at least 2 (other kinds stay as
    /// they are).
    pub fn with_samples(self, n: usize) -> (o: Self)
        ensures
            o == self.set_samples(n),
    {
        let k = if n < 2 {
            2
        } else {
            n
        };
        match self {
            Object::Curve { expr_str, t_min, t_max, var_name, tolerance, color, stroke, .. } =>
                Object::Curve {
                expr_str,
                t_min,
                t_max,
                var_name,
                samples: Some(k),
                tolerance,
                color,
                stroke,
            },
            Object::CurveParam { x_expr, y_expr, t_min, t_max, tolerance, color, stroke, .. } =>
                Object::CurveParam {
                x_expr,
                y_expr,
                t_min,
                t_max,
                samples: Some(k),
                tolerance,
                color,
                stroke,
            },
            other => other,
        }
    }

    /// Set a curve's subdivision tolerance (other kinds stay as they are).
    pub fn with_tolerance(self, tol: N) -> (o: Self)
        ensures
            o == self.set_tolerance(tol),
    {
        match self {
            Object::Curve { expr_str, t_min, t_max, var_name, samples, color, stroke, .. } =>
                Object::Curve {
                expr_str,
                t_min,
                t_max,
                var_name,
                samples,
                tolerance: Some(tol),
                color,
                stroke,
            },
            Object::CurveParam { x_expr, y_expr, t_min, t_max, samples, color, stroke, .. } =>
                Object::CurveParam {
                x_expr,
                y_expr,
                t_min,
                t_max,
                samples,
                tolerance: Some(tol),
                color,
                stroke,
            },
            other => other,
        }
    }

    /// The same as `with_samples`.
    pub fn with_precision(self, n: usize) -> (o: Self)
        ensures
            o == self.set_samples(n),
    {
        self.with_samples(n)
    }
}


/// A named point at `(x, y)`.
pub fn point<N: Copy>(name: &str, x: N, y: N) -> (o: Object<N>)
    ensures
        o matches Object::Point { name: Some(n), coords, color: None, size: None } && n@ == name@
            && coords == (x, y),
{
    Object::Point { name: Some(name.to_owned()), coords: (x, y), color: None, size: None }
}

/// An unnamed point at `(x, y)`.
pub fn point_at<N: Copy>(x: N, y: N) -> (o: Object<N>)
    ensures
        o == (Object::<N>::Point { name: None, coords: (x, y), color: None, size: None }),
{
    Object::Point { name: None, coords: (x, y), color: None, size: None }
}

/// A line between two point references.
pub fn line<N: Copy>(from: PointRef<N>, to: PointRef<N>) -> (o: Object<N>)
    ensures
        o == (Object::<N>::Line { from, to, color: None, stroke: None }),
{
    Object::Line { from, to, color: None, stroke: None }
}

/// A circle of `radius` around `center`.
pub fn circle<N: Copy>(center: PointRef<N>, radius: N) -> (o: Object<N>)
    ensures
        o == (Object::<N>::Circle { center, radius, color: None, stroke: None, fill: None }),
{
    Object::Circle { center, radius, color: None, stroke: None, fill: None }
}

/// A polygon through `points`.
pub fn polygon<N: Copy>(points: Vec<PointRef<N>>) -> (o: Object<N>)
    ensures
        o == (Object::<N>::Polygon { points, color: None, stroke: None, fill: None }),
{
    Object::Polygon { points, color: None, stroke: None, fill: None }
}

/// An ellipse with radii `rx`, `ry` around `center` (no rotation set).
pub fn ellipse<N: Copy>(center: PointRef<N>, rx: N, ry: N) -> (o: Object<N>)
    ensures
        o == (Object::<N>::Ellipse {
            center,
            rx,
            ry,
            rotation: None,
            color: None,
            stroke: None,
            fill: None,
        }),
{
    Object::Ellipse { center, rx, ry, rotation: None, color: None, stroke: None, fill: None }
}

/// An arc of `radius` around `center` from `start_angle` to `end_angle`
/// (degrees).
pub fn arc<N: Copy>(center: PointRef<N>, radius: N, start_angle: N, end_angle: N) -> (o: Object<N>)
    ensures
        o == (Object::<N>::Arc { center, radius, start_angle, end_angle, color: None, stroke: None }),
{
    Object::Arc { center, radius, start_angle, end_angle, color: None, stroke: None }
}

/// A semicircle from `from` to `to`, counter-clockwise.
pub fn semicircle<N: Copy>(from: PointRef<N>, to: PointRef<N>) -> (o: Object<N>)
    ensures
        o matches Object::Semicircle {
            from: f,
            to: t,
            center: None,
            dir,
            color: None,
            stroke: None,
            fill: None,
        } && f == from && t == to && dir@ == dir_name(SemicircleDir::CounterClockwise),
{
    Object::Semicircle {
        from,
        to,
        center: None,
        dir: SemicircleDir::CounterClockwise.as_str().to_owned(),
        color: None,
        stroke: None,
        fill: None,
    }
}

/// The curve `y = expr` in the variable `x`; range, samples and
/// tolerance unset.
pub fn eq<N: Copy>(expr: &str) -> (o: Object<N>)
    ensures
        o matches Object::Curve {
            expr_str,
            t_min: None,
            t_max: None,
            var_name,
            samples: None,
            tolerance: None,
            color: None,
            stroke: None,
        } && expr_str@ == expr@ && var_name@ == seq!['x'],
{
    let x = "x";
    proof {
        reveal_strlit("x");
    }
    Object::Curve {
        expr_str: expr.to_owned(),
        var_name: x.to_owned(),
        t_min: None,
        t_max: None,
        samples: None,
        tolerance: None,
        color: None,
        stroke: None,
    }
}

/// The parametric curve `(x_expr, y_expr)` in `t`; range, samples and
/// tolerance unset.
pub fn eq_param<N: Copy>(x_expr: &str, y_expr: &str) -> (o: Object<N>)
    ensures
        o matches Object::CurveParam {
            x_expr: xe,
            y_expr: ye,
            t_min: None,
            t_max: None,
            samples: None,
            tolerance: None,
            color: None,
            stroke: None,
        } && xe@ == x_expr@ && ye@ == y_expr@,
{
    Object::CurveParam {
        x_expr: x_expr.to_owned(),
        y_expr: y_expr.to_owned(),
        t_min: None,
        t_max: None,
        samples: None,
        tolerance: None,
        color: None,
        stroke: None,
    }
}

/// The color named by `s` (a name or a hex string); `s` must name one.
pub fn color(s: &str) -> (c: Color)
    requires
        parse_color(s@) is Some,
    ensures
        c == parse_color(s@).unwrap(),
{
    match Color::parse(s) {
        Some(c) => c,
        None => Color::rgb(0, 0, 0),
    }
}

/// A copy of a point reference.
fn copy_ref<N: Copy>(p: &PointRef<N>) -> (r: PointRef<N>)
    ensures
        r == *p,
{
    match p {
        PointRef::Named(n) => PointRef::Named(n.clone()),
        PointRef::Coords(x, y) => PointRef::Coords(*x, *y),
    }
}

/// A copy of a list of point references.
fn copy_refs<N: Copy>(v: &Vec<PointRef<N>>) -> (r: Vec<PointRef<N>>)
    ensures
        r@ == v@,
{
    let mut r: Vec<PointRef<N>> = Vec::new();
    let mut i: usize = 0;
    while i < v.len()
        invariant
            i <= v@.len(),
            r@ == v@.take(i as int),
        decreases v@.len() - i,
    {
        r.push(copy_ref(&v[i]));
        i = i + 1;
        assert(r@ =~= v@.take(i as int));
    }
    assert(v@.take(v@.len() as int) =~= v@);
    r
}

/// A copy of a list of coordinates.
fn copy_coords<N: Copy>(v: &Vec<(N, N)>) -> (r: Vec<(N, N)>)
    ensures
        r@ == v@,
{
    let mut r: Vec<(N, N)> = Vec::new();
    let mut i: usize = 0;
    while i < v.len()
        invariant
            i <= v@.len(),
            r@ == v@.take(i as int),
        decreases v@.len() - i,
    {
        r.push(v[i]);
        i = i + 1;
        assert(r@ =~= v@.take(i as int));
    }
    assert(v@.take(v@.len() as int) =~= v@);
    r
}

impl<N: Copy> Clone for Object<N> {
    /// A copy of the object.
    fn clone(&self) -> (o: Self)
        ensures
            same_object(*self, o),
    {
        match self {
            Object::Point { name, coords, color, size } => Object::Point {
                name: match name {
                    Some(n) => Some(n.clone()),
                    None => None,
                },
                coords: *coords,
                color: *color,
                size: *size,
            },
            Object::Line { from, to, color, stroke } => Object::Line {
                from: copy_ref(from),
                to: copy_ref(to),
                color: *color,
                stroke: *stroke,
            },
            Object::Circle { center, radius, color, stroke, fill } => Object::Circle {
                center: copy_ref(center),
                radius: *radius,
                color: *color,
                stroke: *stroke,
                fill: *fill,
            },
            Object::Polygon { points, color, stroke, fill } => Object::Polygon {
                points: copy_refs(points),
                color: *color,
                stroke: *stroke,
                fill: *fill,
            },
            Object::Ellipse { center, rx, ry, rotation, color, stroke, fill } => Object::Ellipse {
                center: copy_ref(center),
                rx: *rx,
                ry: *ry,
                rotation: *rotation,
                color: *color,
                stroke: *stroke,
                fill: *fill,
            },
            Object::Arc { center, radius, start_angle, end_angle, color, stroke } => Object::Arc {
                center: copy_ref(center),
                radius: *radius,
                start_angle: *start_angle,
                end_angle: *end_angle,
                color: *color,
                stroke: *stroke,
            },
            Object::Semicircle { from, to, center, dir, color, stroke, fill } =>
                Object::Semicircle {
                from: copy_ref(from),
                to: copy_ref(to),
                center: match center {
                    Some(c) => Some(copy_ref(c)),
                    None => None,
                },
                dir: dir.clone(),
                color: *color,
                stroke: *stroke,
                fill: *fill,
            },
            Object::Curve { expr_str, t_min, t_max, var_name, samples, tolerance, color, stroke } =>
                Object::Curve {
                expr_str: expr_str.clone(),
                t_min: *t_min,
                t_max: *t_max,
                var_name: var_name.clone(),
                samples: *samples,
                tolerance: *tolerance,
                color: *color,
                stroke: *stroke,
            },
            Object::CurveParam { x_expr, y_expr, t_min, t_max, samples, tolerance, color, stroke } =>
                Object::CurveParam {
                x_expr: x_expr.clone(),
                y_expr: y_expr.clone(),
                t_min: *t_min,
                t_max: *t_max,
                samples: *samples,
                tolerance: *tolerance,
                color: *color,
                stroke: *stroke,
            },
            Object::ResolvedCurve { points, color, stroke } => Object::ResolvedCurve {
                points: copy_coords(points),
                color: *color,
                stroke: *stroke,
            },
        }
    }
}

/// The named points among `objs`: each named point defines its name, a
/// later one replacing an earlier one.
pub open spec fn named_points<N>(objs: Seq<Object<N>>) -> Map<Seq<char>, (N, N)>
    decreases objs.len(),
{
    if objs.len() == 0 {
        Map::empty()
    } else {
        let m = named_points(objs.drop_last());
        match objs.last() {
            Object::Point { name: Some(n), coords, .. } => m.insert(n@, coords),
            _ => m,
        }
    }
}

/// Collect the named points of `objects`.
pub fn build_point_lookup<N: Copy>(objects: &[Object<N>]) -> (l: PointLookup<N>)
    ensures
        l@ == named_points(objects@),
{
    let mut lookup = PointLookup::new();
    let n = objects.len();
    let mut i: usize = 0;
    while i < n
        invariant
            n == objects@.len(),
            i <= n,
            lookup@ == named_points(objects@.take(i as int)),
        decreases n - i,
    {
        proof {
            assert(objects@.take(i + 1).drop_last() == objects@.take(i as int));
            assert(objects@.take(i + 1).last() == objects@[i as int]);
        }
        match &objects[i] {
            Object::Point { name: Some(name), coords, .. } => {
                lookup.insert(name.clone(), *coords);
            },
            _ => {},
        }
        i = i + 1;
    }
    proof {
        assert(objects@.take(n as int) == objects@);
    }
    lookup
}

/// Replace a known name by its coordinates.
fn resolve_point_ref<N: Copy>(pr: &PointRef<N>, lookup: &PointLookup<N>) -> (r: PointRef<N>)
    ensures
        r == resolve_ref_spec(*pr, lookup@),
{
    match pr {
        PointRef::Named(name) => match lookup.get(name.as_str()) {
            Some(coords) => PointRef::Coords(coords.0, coords.1),
            None => PointRef::Named(name.clone()),
        },
        PointRef::Coords(x, y) => PointRef::Coords(*x, *y),
    }
}


/// Default base sample count of a curve.
pub const DEFAULT_SAMPLES: usize = 256;

/// `o`'s value, or `d` when it has none.
pub open spec fn or_else<T>(o: Option<T>, d: T) -> T {
    match o {
        Some(v) => v,
        None => d,
    }
}

/// `o` with every point reference resolved under `m`.
pub open spec fn resolve_opt_ref<N>(o: Option<PointRef<N>>, m: Map<Seq<char>, (N, N)>) -> Option<PointRef<N>> {
    match o {
        Some(p) => Some(resolve_ref_spec(p, m)),
        None => None,
    }
}

/// `r` is what resolving `o` gives: names known to `m` become coordinates,
/// and a curve becomes the polyline that its sampler returned for the
/// curve's expression(s), range (a function curve defaulting to the
/// viewport's x-range), base sample count (default `DEFAULT_SAMPLES`) and
/// tolerance.
pub open spec fn resolved_as<N, F, G>(
    o: Object<N>,
    r: Object<N>,
    m: Map<Seq<char>, (N, N)>,
    vp: Viewport<N>,
    sample_curve: F,
    sample_param: G,
) -> bool where
    F: Fn(&String, &String, N, N, usize, Option<N>) -> Vec<(N, N)>,
    G: Fn(&String, &String, Option<N>, Option<N>, usize, Option<N>) -> Vec<(N, N)>,
 {
    match o {
        Object::Point { .. } => r == o,
        Object::Line { from, to, color, stroke } => r == Object::Line {
            from: resolve_ref_spec(from, m),
            to: resolve_ref_spec(to, m),
            color,
            stroke,
        },
        Object::Circle { center, radius, color, stroke, fill } => r == Object::Circle {
            center: resolve_ref_spec(center, m),
            radius,
            color,
            stroke,
            fill,
        },
        Object::Polygon { points, color, stroke, fill } => r matches Object::Polygon {
            points: p2,
            color: c2,
            stroke: s2,
            fill: f2,
        } && p2@ == points@.map_values(|p: PointRef<N>| resolve_ref_spec(p, m)) && c2 == color
            && s2 == stroke && f2 == fill,
        Object::Ellipse { center, rx, ry, rotation, color, stroke, fill } => r == Object::Ellipse {
            center: resolve_ref_spec(center, m),
            rx,
            ry,
            rotation,
            color,
            stroke,
            fill,
        },
        Object::Arc { center, radius, start_angle, end_angle, color, stroke } => r == Object::Arc {
            center: resolve_ref_spec(center, m),
            radius,
            start_angle,
            end_angle,
            color,
            stroke,
        },
        Object::Semicircle { from, to, center, dir, color, stroke, fill } => r
            == Object::Semicircle {
            from: resolve_ref_spec(from, m),
            to: resolve_ref_spec(to, m),
            center: resolve_opt_ref(center, m),
            dir,
            color,
            stroke,
            fill,
        },
        Object::Curve { expr_str, t_min, t_max, var_name, samples, tolerance, color, stroke } =>
            r matches Object::ResolvedCurve { points, color: c2, stroke: s2 } && c2 == color && s2
            == stroke && call_ensures(
            sample_curve,
            (
                &expr_str,
                &var_name,
                or_else(t_min, vp.x1),
                or_else(t_max, vp.x2),
                or_else(samples, DEFAULT_SAMPLES),
                tolerance,
            ),
            points,
        ),
        Object::CurveParam { x_expr, y_expr, t_min, t_max, samples, tolerance, color, stroke } =>
            r matches Object::ResolvedCurve { points, color: c2, stroke: s2 } && c2 == color && s2
            == stroke && call_ensures(
            sample_param,
            (&x_expr, &y_expr, t_min, t_max, or_else(samples, DEFAULT_SAMPLES), tolerance),
            points,
        ),
        Object::ResolvedCurve { points, color, stroke } => r matches Object::ResolvedCurve {
            points: p2,
            color: c2,
            stroke: s2,
        } && p2@ == points@ && c2 == color && s2 == stroke,
    }
}

/// Resolve `objects` for drawing: point references by the named points in
/// `lookup`, curves by sampling them. `sample_curve` receives a function
/// curve's expression, variable, range, base sample count and tolerance
/// (`None`: the default); `sample_param` a parametric curve's two
/// expressions, range (`None`: the default), base sample count and
/// tolerance.
pub fn resolve_objects<N: Copy, F, G>(
    objects: &[Object<N>],
    lookup: &PointLookup<N>,
    viewport: &Viewport<N>,
    sample_curve: F,
    sample_param: G,
) -> (r: Vec<Object<N>>) where
    F: Fn(&String, &String, N, N, usize, Option<N>) -> Vec<(N, N)>,
    G: Fn(&String, &String, Option<N>, Option<N>, usize, Option<N>) -> Vec<(N, N)>,

    requires
        forall|e: &String, v: &String, lo: N, hi: N, k: usize, t: Option<N>|
            sample_curve.requires((e, v, lo, hi, k, t)),
        forall|xe: &String, ye: &String, lo: Option<N>, hi: Option<N>, k: usize, t: Option<N>|
            sample_param.requires((xe, ye, lo, hi, k, t)),
    ensures
        r@.len() == objects@.len(),
        forall|i: int|
            0 <= i < objects@.len() ==> resolved_as(
                objects@[i],
                #[trigger] r@[i],
                lookup@,
                *viewport,
                sample_curve,
                sample_param,
            ),
{
    let ghost m = lookup@;
    let mut resolved: Vec<Object<N>> = Vec::new();
    let n = objects.len();
    let mut i: usize = 0;
    while i < n
        invariant
            n == objects@.len(),
            i <= n,
            m == lookup@,
            resolved@.len() == i,
            forall|e: &String, v: &String, lo: N, hi: N, k: usize, t: Option<N>|
                sample_curve.requires((e, v, lo, hi, k, t)),
            forall|xe: &String, ye: &String, lo: Option<N>, hi: Option<N>, k: usize, t: Option<N>|
                sample_param.requires((xe, ye, lo, hi, k, t)),
            forall|j: int|
                0 <= j < i ==> resolved_as(
                    objects@[j],
                    #[trigger] resolved@[j],
                    m,
                    *viewport,
                    sample_curve,
                    sample_param,
                ),
        decreases n - i,
    {
        let o = match &objects[i] {
            Object::Point { name, coords, color, size } => {
                let name2 = match name {
                    Some(s) => Some(s.clone()),
                    None => None,
                };
                Object::Point { name: name2, coords: *coords, color: *color, size: *size }
            },
            Object::Line { from, to, color, stroke } => Object::Line {
                from: resolve_point_ref(from, lookup),
                to: resolve_point_ref(to, lookup),
                color: *color,
                stroke: *stroke,
            },
            Object::Circle { center, radius, color, stroke, fill } => Object::Circle {
                center: resolve_point_ref(center, lookup),
                radius: *radius,
                color: *color,
                stroke: *stroke,
                fill: *fill,
            },
            Object::Polygon { points, color, stroke, fill } => {
                let mut pts: Vec<PointRef<N>> = Vec::new();
                let k = points.len();
                let mut j: usize = 0;
                while j < k
                    invariant
                        k == points@.len(),
                        j <= k,
                        m == lookup@,
                        pts@ == points@.take(j as int).map_values(
                            |p: PointRef<N>| resolve_ref_spec(p, m),
                        ),
                    decreases k - j,
                {
                    pts.push(resolve_point_ref(&points[j], lookup));
                    proof {
                        assert(points@.take(j + 1).drop_last() == points@.take(j as int));
                    }
                    j = j + 1;
                    assert(pts@ =~= points@.take(j as int).map_values(
                        |p: PointRef<N>| resolve_ref_spec(p, m),
                    ));
                }
                proof {
                    assert(points@.take(k as int) == points@);
                }
                Object::Polygon { points: pts, color: *color, stroke: *stroke, fill: *fill }
            },
            Object::Ellipse { center, rx, ry, rotation, color, stroke, fill } => Object::Ellipse {
                center: resolve_point_ref(center, lookup),
                rx: *rx,
                ry: *ry,
                rotation: *rotation,
                color: *color,
                stroke: *stroke,
                fill: *fill,
            },
            Object::Arc { center, radius, start_angle, end_angle, color, stroke } => Object::Arc {
                center: resolve_point_ref(center, lookup),
                radius: *radius,
                start_angle: *start_angle,
                end_angle: *end_angle,
                color: *color,
                stroke: *stroke,
            },
            Object::Semicircle { from, to, center, dir, color, stroke, fill } => {
                let c = match center {
                    Some(c) => Some(resolve_point_ref(c, lookup)),
                    None => None,
                };
                Object::Semicircle {
                    from: resolve_point_ref(from, lookup),
                    to: resolve_point_ref(to, lookup),
                    center: c,
                    dir: dir.clone(),
                    color: *color,
                    stroke: *stroke,
                    fill: *fill,
                }
            },
            Object::Curve { expr_str, t_min, t_max, var_name, samples, tolerance, color, stroke } => {
                let lo = match t_min {
                    Some(v) => *v,
                    None => viewport.x1,
                };
                let hi = match t_max {
                    Some(v) => *v,
                    None => viewport.x2,
                };
                let k = match samples {
                    Some(v) => *v,
                    None => DEFAULT_SAMPLES,
                };
                let points = sample_curve(expr_str, var_name, lo, hi, k, *tolerance);
                Object::ResolvedCurve { points, color: *color, stroke: *stroke }
            },
            Object::CurveParam {
                x_expr,
                y_expr,
                t_min,
                t_max,
                samples,
                tolerance,
                color,
                stroke,
            } => {
                let k = match samples {
                    Some(v) => *v,
                    None => DEFAULT_SAMPLES,
                };
                let points = sample_param(x_expr, y_expr, *t_min, *t_max, k, *tolerance);
                Object::ResolvedCurve { points, color: *color, stroke: *stroke }
            },
            Object::ResolvedCurve { points, color, stroke } => {
                let mut pts: Vec<(N, N)> = Vec::new();
                let k = points.len();
                let mut j: usize = 0;
                while j < k
                    invariant
                        k == points@.len(),
                        j <= k,
                        pts@ == points@.take(j as int),
                    decreases k - j,
                {
                    pts.push(points[j]);
                    j = j + 1;
                    assert(pts@ =~= points@.take(j as int));
                }
                proof {
                    assert(points@.take(k as int) == points@);
                }
                Object::ResolvedCurve { points: pts, color: *color, stroke: *stroke }
            },
        };
        resolved.push(o);
        i = i + 1;
    }
    resolved
}


/// `o` is a point named `n`.
pub open spec fn names_point<N>(o: Object<N>, n: Seq<char>) -> bool {
    o matches Object::Point { name: Some(m), .. } && m@ == n
}

/// The coordinates of `o` if it is a point.
pub open spec fn point_coords<N>(o: Object<N>) -> (N, N) {
    match o {
        Object::Point { coords, .. } => coords,
        _ => arbitrary(),
    }
}

/// A name that no point of `objs` has is not defined by them.
pub proof fn lemma_undefined_name<N>(objs: Seq<Object<N>>, n: Seq<char>)
    requires
        forall|k: int| 0 <= k < objs.len() ==> !names_point(#[trigger] objs[k], n),
    ensures
        !named_points(objs).contains_key(n),
    decreases objs.len(),
{
    if objs.len() > 0 {
        assert(!names_point(objs[objs.len() - 1], n));
        lemma_undefined_name(objs.drop_last(), n);
    }
}

/// A name stands for the coordinates of the last point that has it.
pub proof fn lemma_last_definition_wins<N>(objs: Seq<Object<N>>, j: int, n: Seq<char>)
    requires
        0 <= j < objs.len(),
        names_point(objs[j], n),
        forall|k: int| j < k < objs.len() ==> !names_point(#[trigger] objs[k], n),
    ensures
        named_points(objs).contains_key(n),
        named_points(objs)[n] == point_coords(objs[j]),
    decreases objs.len(),
{
    if j < objs.len() - 1 {
        assert(!names_point(objs[objs.len() - 1], n));
        lemma_last_definition_wins(objs.drop_last(), j, n);
    }
}

/// Replacing a known name by its coordinates does not change what the
/// reference stands for, and doing it twice is doing it once.
pub proof fn lemma_resolve_ref_keeps_meaning<N>(p: PointRef<N>, m: Map<Seq<char>, (N, N)>)
    ensures
        resolve_spec(resolve_ref_spec(p, m), m) == resolve_spec(p, m),
        resolve_ref_spec(resolve_ref_spec(p, m), m) == resolve_ref_spec(p, m),
{
}

/// `a` and `b` are the same object, their vectors compared by contents.
pub open spec fn same_object<N>(a: Object<N>, b: Object<N>) -> bool {
    match (a, b) {
        (
            Object::Polygon { points: p, color: c, stroke: s, fill: f },
            Object::Polygon { points: p2, color: c2, stroke: s2, fill: f2 },
        ) => p@ == p2@ && c == c2 && s == s2 && f == f2,
        (
            Object::ResolvedCurve { points: p, color: c, stroke: s },
            Object::ResolvedCurve { points: p2, color: c2, stroke: s2 },
        ) => p@ == p2@ && c == c2 && s == s2,
        (Object::Polygon { .. }, _) => false,
        (Object::ResolvedCurve { .. }, _) => false,
        _ => a == b,
    }
}

/// Resolving an object that is already resolved gives it back: known
/// names are coordinates already, unknown names stay names, and curves are
/// sampled already.
pub proof fn lemma_resolve_twice<N, F, G>(
    o: Object<N>,
    r: Object<N>,
    r2: Object<N>,
    m: Map<Seq<char>, (N, N)>,
    vp: Viewport<N>,
    sample_curve: F,
    sample_param: G,
)
    where
        F: Fn(&String, &String, N, N, usize, Option<N>) -> Vec<(N, N)>,
        G: Fn(&String, &String, Option<N>, Option<N>, usize, Option<N>) -> Vec<(N, N)>,
    requires
        resolved_as(o, r, m, vp, sample_curve, sample_param),
        resolved_as(r, r2, m, vp, sample_curve, sample_param),
    ensures
        same_object(r, r2),
{
    match o {
        Object::Line { from, to, .. } => {
            lemma_resolve_ref_keeps_meaning(from, m);
            lemma_resolve_ref_keeps_meaning(to, m);
        },
        Object::Circle { center, .. } => lemma_resolve_ref_keeps_meaning(center, m),
        Object::Ellipse { center, .. } => lemma_resolve_ref_keeps_meaning(center, m),
        Object::Arc { center, .. } => lemma_resolve_ref_keeps_meaning(center, m),
        Object::Semicircle { from, to, center, .. } => {
            lemma_resolve_ref_keeps_meaning(from, m);
            lemma_resolve_ref_keeps_meaning(to, m);
            if let Some(c) = center {
                lemma_resolve_ref_keeps_meaning(c, m);
            }
        },
        Object::Polygon { points, .. } => {
            if let Object::Polygon { points: p1, .. } = r {
                if let Object::Polygon { points: p2, .. } = r2 {
                    assert forall|k: int| 0 <= k < p1@.len() implies p2@[k] == p1@[k] by {
                        lemma_resolve_ref_keeps_meaning(points@[k], m);
                    }
                    assert(p2@ =~= p1@);
                }
            }
        },
        _ => {},
    }
}

/// Resolving a resolved list again, with the same lookup, viewport and
/// samplers, gives each object back.
pub proof fn lemma_resolve_objects_twice<N, F, G>(
    objs: Seq<Object<N>>,
    r: Seq<Object<N>>,
    r2: Seq<Object<N>>,
    m: Map<Seq<char>, (N, N)>,
    vp: Viewport<N>,
    sample_curve: F,
    sample_param: G,
)
    where
        F: Fn(&String, &String, N, N, usize, Option<N>) -> Vec<(N, N)>,
        G: Fn(&String, &String, Option<N>, Option<N>, usize, Option<N>) -> Vec<(N, N)>,
    requires
        r.len() == objs.len(),
        r2.len() == r.len(),
        forall|i: int|
            0 <= i < objs.len() ==> resolved_as(objs[i], #[trigger] r[i], m, vp, sample_curve, sample_param),
        forall|i: int|
            0 <= i < r.len() ==> resolved_as(r[i], #[trigger] r2[i], m, vp, sample_curve, sample_param),
    ensures
        forall|i: int| 0 <= i < r.len() ==> same_object(#[trigger] r[i], r2[i]),
{
    assert forall|i: int| 0 <= i < r.len() implies same_object(#[trigger] r[i], r2[i]) by {
        lemma_resolve_twice(objs[i], r[i], r2[i], m, vp, sample_curve, sample_param);
    }
}

/// Styling sets the color, sets stroke and fill where the kind has them,
/// and changes nothing else; a second styling replaces the first.
pub proof fn lemma_set_style<N>(
    o: Object<N>,
    color: Option<Color>,
    stroke: Option<N>,
    fill: Option<Color>,
    color2: Option<Color>,
    stroke2: Option<N>,
    fill2: Option<Color>,
)
    ensures
        o.set_style(color, stroke, fill).color_of() == color,
        o.set_style(color, stroke, fill).stroke_of() == (if o.has_stroke() {
            stroke
        } else {
            None
        }),
        o.set_style(color, stroke, fill).fill_of() == (if o.has_fill() {
            fill
        } else {
            None
        }),
        o.set_style(color, stroke, fill).set_style(None, None, None) == o.set_style(None, None, None),
        o.set_style(color, stroke, fill).set_style(color2, stroke2, fill2) == o.set_style(
            color2,
            stroke2,
            fill2,
        ),
        o.set_style(o.color_of(), o.stroke_of(), o.fill_of()) == o,
{
}

/// A curve's base sample count, once set, is at least 2.
pub proof fn lemma_samples_at_least_two<N>(o: Object<N>, n: usize)
    ensures
        o is Curve ==> (o.set_samples(n) matches Object::Curve { samples: Some(k), .. } && k >= 2
            && (n >= 2 ==> k == n)),
        o is CurveParam ==> (o.set_samples(n) matches Object::CurveParam { samples: Some(k), .. }
            && k >= 2 && (n >= 2 ==> k == n)),
        !(o is Curve || o is CurveParam) ==> o.set_samples(n) == o,
{
}

/// Setting a tolerance records it on a curve of either kind and keeps the
/// curve's other fields; other kinds stay as they are.
pub proof fn lemma_set_tolerance<N>(o: Object<N>, tol: N)
    ensures
        match o {
            Object::Curve { expr_str, t_min, t_max, var_name, samples, tolerance, color, stroke } =>
                o.set_tolerance(tol) == (Object::<N>::Curve {
                expr_str,
                t_min,
                t_max,
                var_name,
                samples,
                tolerance: Some(tol),
                color,
                stroke,
            }),
            Object::CurveParam { x_expr, y_expr, t_min, t_max, samples, tolerance, color, stroke } =>
                o.set_tolerance(tol) == (Object::<N>::CurveParam {
                x_expr,
                y_expr,
                t_min,
                t_max,
                samples,
                tolerance: Some(tol),
                color,
                stroke,
            }),
            _ => o.set_tolerance(tol) == o,
        },
{
}

/// Setting a range records both ends on a curve of either kind and keeps
/// the curve's other fields; other kinds stay as they are.
pub proof fn lemma_set_range<N>(o: Object<N>, lo: N, hi: N)
    ensures
        match o {
            Object::Curve { expr_str, t_min, t_max, var_name, samples, tolerance, color, stroke } =>
                o.set_range(lo, hi) == (Object::<N>::Curve {
                expr_str,
                t_min: Some(lo),
                t_max: Some(hi),
                var_name,
                samples,
                tolerance,
                color,
                stroke,
            }),
            Object::CurveParam { x_expr, y_expr, t_min, t_max, samples, tolerance, color, stroke } =>
                o.set_range(lo, hi) == (Object::<N>::CurveParam {
                x_expr,
                y_expr,
                t_min: Some(lo),
                t_max: Some(hi),
                samples,
                tolerance,
                color,
                stroke,
            }),
            _ => o.set_range(lo, hi) == o,
        },
{
}

/// Setting a size records it on a point and keeps its other fields;
/// other kinds stay as they are.
pub proof fn lemma_set_size<N>(o: Object<N>, size: N)
    ensures
        match o {
            Object::Point { name, coords, color, size: old_size } => o.set_size(size) == (
            Object::<N>::Point { name, coords, color, size: Some(size) }),
            _ => o.set_size(size) == o,
        },
{
}

/// Setting a rotation records it on an ellipse and keeps its other fields;
/// other kinds stay as they are.
pub proof fn lemma_set_rotation<N>(o: Object<N>, deg: N)
    ensures
        match o {
            Object::Ellipse { center, rx, ry, rotation, color, stroke, fill } => o.set_rotation(deg)
                == (Object::<N>::Ellipse {
                center,
                rx,
                ry,
                rotation: Some(deg),
                color,
                stroke,
                fill,
            }),
            _ => o.set_rotation(deg) == o,
        },
{
}

/// Styling sets exactly the given color on every kind, the given stroke
/// on every kind but a point, and the given fill on circles, polygons,
/// ellipses and semicircles, keeping every other field.
pub proof fn lemma_set_style_fields<N>(
    o: Object<N>,
    color: Option<Color>,
    stroke: Option<N>,
    fill: Option<Color>,
)
    ensures
        match o {
            Object::Point { name, coords, size, .. } => o.set_style(color, stroke, fill) == (
            Object::<N>::Point { name, coords, color, size }),
            Object::Line { from, to, .. } => o.set_style(color, stroke, fill) == (
            Object::<N>::Line { from, to, color, stroke }),
            Object::Circle { center, radius, .. } => o.set_style(color, stroke, fill) == (
            Object::<N>::Circle { center, radius, color, stroke, fill }),
            Object::Ellipse { center, rx, ry, rotation, .. } => o.set_style(color, stroke, fill)
                == (Object::<N>::Ellipse { center, rx, ry, rotation, color, stroke, fill }),
            Object::Arc { center, radius, start_angle, end_angle, .. } => o.set_style(
                color,
                stroke,
                fill,
            ) == (Object::<N>::Arc { center, radius, start_angle, end_angle, color, stroke }),
            Object::Semicircle { from, to, center, dir, .. } => o.set_style(color, stroke, fill)
                == (Object::<N>::Semicircle { from, to, center, dir, color, stroke, fill }),
            _ => o.set_style(color, stroke, fill).color_of() == color,
        },
{
}

/// A curve is sampled over its own range where it has one, and a function
/// curve over the viewport's x-range (`x1` to `x2`) where it has none, with
/// its own sample count or 256, and its tolerance; a parametric curve
/// hands its range as it is; the sampled polyline keeps the curve's color
/// and stroke.
pub proof fn lemma_curve_sampling<N, F, G>(
    o: Object<N>,
    r: Object<N>,
    m: Map<Seq<char>, (N, N)>,
    vp: Viewport<N>,
    sample_curve: F,
    sample_param: G,
)
    where
        F: Fn(&String, &String, N, N, usize, Option<N>) -> Vec<(N, N)>,
        G: Fn(&String, &String, Option<N>, Option<N>, usize, Option<N>) -> Vec<(N, N)>,
    requires
        resolved_as(o, r, m, vp, sample_curve, sample_param),
    ensures
        match o {
            Object::Curve { expr_str, t_min, t_max, var_name, samples, tolerance, color, stroke } =>
                match r {
                Object::ResolvedCurve { points, color: c2, stroke: s2 } => c2 == color && s2 == stroke
                    && call_ensures(
                    sample_curve,
                    (
                        &expr_str,
                        &var_name,
                        (match t_min {
                            Some(a) => a,
                            None => vp.x1,
                        }),
                        (match t_max {
                            Some(b) => b,
                            None => vp.x2,
                        }),
                        (match samples {
                            Some(k) => k,
                            None => 256usize,
                        }),
                        tolerance,
                    ),
                    points,
                ),
                _ => false,
            },
            Object::CurveParam { x_expr, y_expr, t_min, t_max, samples, tolerance, color, stroke } =>
                match r {
                Object::ResolvedCurve { points, color: c2, stroke: s2 } => c2 == color && s2 == stroke
                    && call_ensures(
                    sample_param,
                    (
                        &x_expr,
                        &y_expr,
                        t_min,
                        t_max,
                        (match samples {
                            Some(k) => k,
                            None => 256usize,
                        }),
                        tolerance,
                    ),
                    points,
                ),
                _ => false,
            },
            _ => true,
        },
{
}

/// Resolving keeps every field of an object that is not a curve, with
/// each point reference replaced as `resolve_ref_spec` says: a name known
/// to `m` by its coordinates, anything else as it is.
pub proof fn lemma_resolve_keeps_fields<N, F, G>(
    o: Object<N>,
    r: Object<N>,
    m: Map<Seq<char>, (N, N)>,
    vp: Viewport<N>,
    sample_curve: F,
    sample_param: G,
)
    where
        F: Fn(&String, &String, N, N, usize, Option<N>) -> Vec<(N, N)>,
        G: Fn(&String, &String, Option<N>, Option<N>, usize, Option<N>) -> Vec<(N, N)>,
    requires
        resolved_as(o, r, m, vp, sample_curve, sample_param),
    ensures
        match o {
            Object::Point { .. } => r == o,
            Object::Line { from, to, color, stroke } => match r {
                Object::Line { from: f2, to: t2, color: c2, stroke: s2 } => c2 == color && s2
                    == stroke && f2 == resolve_ref_spec(from, m) && t2 == resolve_ref_spec(to, m),
                _ => false,
            },
            Object::Circle { center, radius, color, stroke, fill } => match r {
                Object::Circle { center: c2, radius: r2, color: col2, stroke: s2, fill: f2 } => r2
                    == radius && col2 == color && s2 == stroke && f2 == fill && c2
                    == resolve_ref_spec(center, m),
                _ => false,
            },
            Object::Ellipse { center, rx, ry, rotation, color, stroke, fill } => match r {
                Object::Ellipse {
                    center: c2,
                    rx: rx2,
                    ry: ry2,
                    rotation: rot2,
                    color: col2,
                    stroke: s2,
                    fill: f2,
                } => rx2 == rx && ry2 == ry && rot2 == rotation && col2 == color && s2 == stroke
                    && f2 == fill && c2 == resolve_ref_spec(center, m),
                _ => false,
            },
            Object::Arc { center, radius, start_angle, end_angle, color, stroke } => match r {
                Object::Arc {
                    center: c2,
                    radius: r2,
                    start_angle: a2,
                    end_angle: b2,
                    color: col2,
                    stroke: s2,
                } => r2 == radius && a2 == start_angle && b2 == end_angle && col2 == color && s2
                    == stroke && c2 == resolve_ref_spec(center, m),
                _ => false,
            },
            Object::Semicircle { from, to, center, dir, color, stroke, fill } => match r {
                Object::Semicircle {
                    from: f2,
                    to: t2,
                    center: c2,
                    dir: d2,
                    color: col2,
                    stroke: s2,
                    fill: fi2,
                } => d2 == dir && col2 == color && s2 == stroke && fi2 == fill && f2
                    == resolve_ref_spec(from, m) && t2 == resolve_ref_spec(to, m) && (match center {
                    Some(c) => c2 == Some(resolve_ref_spec(c, m)),
                    None => c2 is None,
                }),
                _ => false,
            },
            Object::Polygon { points, color, stroke, fill } => match r {
                Object::Polygon { points: p2, color: c2, stroke: s2, fill: f2 } => c2 == color && s2
                    == stroke && f2 == fill && p2@.len() == points@.len() && forall|k: int|
                    0 <= k < points@.len() ==> #[trigger] p2@[k] == resolve_ref_spec(points@[k], m),
                _ => false,
            },
            Object::ResolvedCurve { points, color, stroke } => match r {
                Object::ResolvedCurve { points: p2, color: c2, stroke: s2 } => p2@ == points@ && c2
                    == color && s2 == stroke,
                _ => false,
            },
            _ => r is ResolvedCurve,
        },
{
}

/// A name that `m` knows stands for its coordinates and resolves to
/// them; an unknown name stands for nothing and stays a name;
/// coordinates stand for themselves.
pub proof fn lemma_point_ref_meaning<N>(p: PointRef<N>, m: Map<Seq<char>, (N, N)>)
    ensures
        match p {
            PointRef::Named(n) => if m.contains_key(n@) {
                resolve_spec(p, m) == Some(m[n@]) && resolve_ref_spec(p, m) == PointRef::<N>::Coords(
                    m[n@].0,
                    m[n@].1,
                )
            } else {
                resolve_spec(p, m) is None && resolve_ref_spec(p, m) == p
            },
            PointRef::Coords(x, y) => resolve_spec(p, m) == Some((x, y)) && resolve_ref_spec(p, m)
                == p,
        },
{
}

} // verus!
