use dgs::dsl::grammar::{DslErrorKind, Keyword};
use dgs::dsl::token::{Delim, Tok};
use dgs::dsl::codegen::generate;
use proc_macro2::{Delimiter, Group, Spacing, TokenStream, TokenTree};

fn trees(ts: TokenStream) -> Vec<Tok> {
    ts.into_iter()
        .map(|tt| match tt {
            TokenTree::Ident(i) => Tok::Ident(i.to_string(), i),
            TokenTree::Punct(p) => Tok::Punct(p.as_char(), p.spacing() == Spacing::Joint, p),
            TokenTree::Literal(l) => Tok::Lit(l.to_string(), l),
            TokenTree::Group(g) => {
                let d = match g.delimiter() {
                    Delimiter::Parenthesis => Delim::Paren,
                    Delimiter::Brace => Delim::Brace,
                    Delimiter::Bracket => Delim::Bracket,
                    Delimiter::None => Delim::Invisible,
                };
                Tok::Group(d, trees(g.stream()), g.span())
            },
        })
        .collect()
}

fn stream(v: &[Tok]) -> TokenStream {
    v.iter()
        .map(|t| match t {
            Tok::Ident(_, i) => TokenTree::Ident(i.clone()),
            Tok::Punct(_, _, p) => TokenTree::Punct(p.clone()),
            Tok::Lit(_, l) => TokenTree::Literal(l.clone()),
            Tok::Group(d, inner, _) => {
                let d = match d {
                    Delim::Paren => Delimiter::Parenthesis,
                    Delim::Brace => Delimiter::Brace,
                    Delim::Bracket => Delimiter::Bracket,
                    Delim::Invisible => Delimiter::None,
                };
                TokenTree::Group(Group::new(d, stream(inner)))
            },
        })
        .collect()
}

fn lex(src: &str) -> Vec<Tok> {
    trees(src.parse::<TokenStream>().unwrap())
}

fn expand(src: &str) -> String {
    match generate(&lex(src)) {
        Ok(v) => stream(&v).to_string(),
        Err(e) => panic!("refused: {:?}", e.kind),
    }
}

fn refusal(src: &str) -> DslErrorKind {
    match generate(&lex(src)) {
        Ok(v) => panic!("accepted: {}", stream(&v)),
        Err(e) => e.kind,
    }
}

fn code(src: &str) -> String {
    src.parse::<TokenStream>().unwrap().to_string()
}

const START: &str = "#[allow(unused_mut)] let mut __scene = ::dgs::__private::Scene::new(\
    ::dgs::__private::Viewport::new(0.0, 0.0, 10.0, 10.0, 400.0, 400.0),);";

fn block(body: &str) -> String {
    code(&format!("{{ {START} {body} __scene }}"))
}

fn push(obj: &str) -> String {
    format!("__scene = ::dgs::__private::Scene::push(__scene, {obj});")
}

fn col(lit: &str) -> String {
    format!("::dgs::__private::color({lit})")
}

#[test]
fn empty_program_is_a_fresh_scene() {
    assert_eq!(expand(""), block(""));
}

#[test]
fn expansion_dark_theme_without_viewport() {
    let body = format!(
        "__scene = ::dgs::__private::Scene::theme(__scene, ::dgs::__private::Theme::dark());\
         __scene = ::dgs::__private::Scene::grid(__scene, true);\
         __scene = ::dgs::__private::Scene::axes(__scene, true);\
         {}",
        push("::dgs::__private::point_at(0 as f64, 0 as f64)")
    );
    assert_eq!(expand("theme dark; grid; axes; point (0, 0);"), block(&body));
}

#[test]
fn semicolons_between_statements_are_optional() {
    assert_eq!(expand("theme light grid axes"), expand("theme light; grid; axes;"));
}

#[test]
fn viewport_with_and_without_end() {
    assert_eq!(
        expand("viewport [-5, -5] to [5, 5] size (400, 400);"),
        block(
            "__scene = ::dgs::__private::Scene::viewport(__scene, ::dgs::__private::Viewport::new(\
             -5 as f64, -5 as f64, 5 as f64, 5 as f64, 400 as f64, 400 as f64),);"
        )
    );
    assert_eq!(
        expand("viewport [1, 2] size (3, 4)"),
        block(
            "__scene = ::dgs::__private::Scene::viewport(__scene, ::dgs::__private::Viewport::new(\
             1 as f64, 2 as f64, 10.0 as f64, 10.0 as f64, 3 as f64, 4 as f64),);"
        )
    );
}

#[test]
fn grid_and_axes_settings() {
    let body = format!(
        "__scene = ::dgs::__private::Scene::grid(__scene, true);\
         __scene = ::dgs::__private::Scene::grid_spacing(__scene, 2 as f64);\
         __scene = ::dgs::__private::Scene::grid_width(__scene, 0.5 as f64);\
         __scene = ::dgs::__private::Scene::grid_color(__scene, {});\
         __scene = ::dgs::__private::Scene::axes(__scene, true);\
         __scene = ::dgs::__private::Scene::axis_width(__scene, 2 as f64);\
         __scene = ::dgs::__private::Scene::axis_color(__scene, {});\
         __scene = ::dgs::__private::Scene::axis_label_size(__scene, 12 as f64);",
        col("\"gray\""),
        col("\"#333\"")
    );
    // A later setting replaces an earlier one; the calls come in a fixed order.
    assert_eq!(
        expand("grid color gray spacing 1 width 0.5 spacing 2; axes label_size 12 color \"#333\" width 2"),
        block(&body)
    );
}

#[test]
fn points_and_styles() {
    let body = format!(
        "{}{}",
        push(&format!(
            "::dgs::__private::point(\"A\", 0 as f64, 0 as f64).with_size(3 as f64).with_color({})",
            col("\"red\"")
        )),
        push(&format!(
            "::dgs::__private::circle(::dgs::__private::PointRef::named(\"A\"), 2 as f64)\
             .with_color({}).with_stroke(1.5 as f64).with_fill({})",
            col("\"blue\""),
            col("\"#0000ff40\"")
        ))
    );
    assert_eq!(
        expand("point A (0, 0) size 3 color red; circle A radius 2 fill \"#0000ff40\" stroke 1.5 color blue;"),
        block(&body)
    );
}

#[test]
fn objects_of_every_kind() {
    let at = |x: &str, y: &str| format!("::dgs::__private::PointRef::at({x} as f64, {y} as f64)");
    let named = |n: &str| format!("::dgs::__private::PointRef::named(\"{n}\")");
    let body = [
        push(&format!("::dgs::__private::line({}, {})", named("A"), at("2", "3"))),
        push(&format!(
            "::dgs::__private::ellipse({}, 3 as f64, 2 as f64).with_rotation(30 as f64)",
            at("0", "0")
        )),
        push(&format!(
            "::dgs::__private::arc({}, 2 as f64, 0 as f64, 90 as f64)",
            named("A")
        )),
        push(&format!(
            "::dgs::__private::semicircle({}, {}).with_dir(::dgs::__private::SemicircleDir::Clockwise)\
             .with_center({})",
            named("A"),
            named("B"),
            at("1", "1")
        )),
        push(&format!(
            "::dgs::__private::semicircle({}, {}).with_dir(::dgs::__private::SemicircleDir::CounterClockwise)",
            named("A"),
            named("B")
        )),
        push(&format!(
            "::dgs::__private::polygon(vec![{}, {}, {}])",
            named("A"),
            named("B"),
            at("3", "0")
        )),
    ]
    .concat();
    assert_eq!(
        expand(
            "line A -> (2, 3)
             ellipse (0, 0) rx 3 ry 2 rot 30
             arc A radius 2 from 0 to 90
             semicircle A -> B cw center (1, 1)
             semicircle A -> B
             polygon A B (3, 0)"
        ),
        block(&body)
    );
}

#[test]
fn expansion_of_curve_aliases() {
    let body = [
        push(
            "::dgs::__private::eq(\"x^2\").with_var(\"x\").with_range(-2 as f64, 2 as f64)",
        ),
        push(
            "::dgs::__private::eq_param(\"cos(t)\", \"sin(t)\").with_range(0 as f64, 6.28 as f64)",
        ),
    ]
    .concat();
    assert_eq!(
        expand("curve \"x^2\" x in [-2, 2]; curve_param \"cos(t)\" \"sin(t)\" in [0, 6.28];"),
        block(&body)
    );
    assert_eq!(
        expand("eq \"x^2\" x in [-2, 2]; eq_param \"cos(t)\" \"sin(t)\" in [0, 6.28];"),
        block(&body)
    );
}

#[test]
fn curve_variable_defaults_to_x() {
    assert_eq!(expand("eq \"sin(x) / x\" in [-5, 5]"), expand("eq \"sin(x) / x\" x in [-5, 5]"));
    assert_eq!(
        expand("eq \"t * t\" t in [0, 1]"),
        block(&push(
            "::dgs::__private::eq(\"t * t\").with_var(\"t\").with_range(0 as f64, 1 as f64)"
        ))
    );
}

#[test]
fn control_flow_and_raw_statements() {
    let pt = push("::dgs::__private::point_at(x as f64, y as f64)");
    let body = format!(
        "for &(x, y) in &pts {{ {pt} }}\
         let mut i = 0;\
         while i < 3 {{ i += 1; }}\
         loop {{ break; }}\
         if a {{ {pt} }} else if b {{ }} else {{ {pt} }}"
    );
    assert_eq!(
        expand(
            "for &(x, y) in &pts { point (x, y) }
             #let mut i = 0;
             while i < 3 { #i += 1; }
             loop { #break; }
             if a { point (x, y) } else if b { } else { point (x, y); }"
        ),
        block(&body)
    );
}

#[test]
fn expressions_are_copied_whole() {
    assert_eq!(
        expand("circle (a + b * 2, f(x, y)) radius r.max(1.0)"),
        block(&push(
            "::dgs::__private::circle(::dgs::__private::PointRef::at(a + b * 2 as f64, f(x, y) as f64), \
             r.max(1.0) as f64)"
        ))
    );
}

#[test]
fn expansion_of_a_full_scene() {
    let out = expand(
        "viewport [-5, -5] to [5, 5] size (400, 400);
        theme light;
        grid spacing 1;
        axes;
        point A (0, 0);
        point B (3, 4) color red;
        line A -> B;
        circle A radius 2 stroke 1.5;
        polygon A B (3, 0) fill \"#0000ff40\";
        ellipse (0, 0) rx 3 ry 2 rot 30 color blue;
        arc A radius 2 from 0 to 90;
        semicircle A -> B cw;
        eq \"sin(x) / x\" x in [-5, 5] color \"#ff6600\";
        eq_param \"2 * cos(t)\" \"2 * sin(t)\" in [0, 6.28];
        point (1, 2) size 3 color green;",
    );
    assert!(out.starts_with('{'));
    assert_eq!(out.matches(":: Scene :: push").count(), 11);
    assert!(out.contains(&code("::dgs::__private::color(\"#0000ff40\")")));
}

#[test]
fn expansion_of_loops_over_outside_data() {
    let out = expand(
        "point A (0, 0);
        for &(x, y) in &pts {
            point (x, y) color blue;
            circle (x, y) radius 0.2;
        }
        #let mut i = 0;
        while i < 3 {
            point (i as f64, 0) size 2;
            #i += 1;
        }
        if show_circle {
            circle A radius 3 color red;
        } else {
            circle A radius 1 color green;
        }",
    );
    assert_eq!(out.matches(":: Scene :: push").count(), 6);
    assert!(out.contains(&code("point_at(i as f64 as f64, 0 as f64)")));
}

#[test]
fn the_written_code_builds_a_scene() {
    // The code that `point A (0, 0); for &(x, y) in &pts { point (x, y) color
    // blue; circle (x, y) radius 0.2; }` becomes, run against the library.
    let pts = vec![(0.0, 0.0), (1.0, 2.0), (-2.0, 1.0)];
    let scene = {
        #[allow(unused_mut)]
        let mut __scene = ::dgs::__private::Scene::new(
            ::dgs::__private::Viewport::new(0.0, 0.0, 10.0, 10.0, 400.0, 400.0),
        );
        __scene = ::dgs::__private::Scene::push(
            __scene,
            ::dgs::__private::point("A", 0 as f64, 0 as f64),
        );
        for &(x, y) in &pts {
            __scene = ::dgs::__private::Scene::push(
                __scene,
                ::dgs::__private::point_at(x as f64, y as f64)
                    .with_color(::dgs::__private::color("blue")),
            );
            __scene = ::dgs::__private::Scene::push(
                __scene,
                ::dgs::__private::circle(::dgs::__private::PointRef::at(x as f64, y as f64), 0.2 as f64),
            );
        }
        __scene
    };
    assert_eq!(scene.objects().len(), 7);
    assert_eq!(
        expand("point A (0, 0); for &(x, y) in &pts { point (x, y) color blue; circle (x, y) radius 0.2; }"),
        block(&format!(
            "{} for &(x, y) in &pts {{ {} {} }}",
            push("::dgs::__private::point(\"A\", 0 as f64, 0 as f64)"),
            push(&format!("::dgs::__private::point_at(x as f64, y as f64).with_color({})", col("\"blue\""))),
            push("::dgs::__private::circle(::dgs::__private::PointRef::at(x as f64, y as f64), 0.2 as f64)")
        ))
    );
}

#[test]
fn refusals() {
    assert_eq!(refusal("foo;"), DslErrorKind::ExpectedStatement);
    assert_eq!(refusal("theme blue"), DslErrorKind::ExpectedTheme);
    assert_eq!(refusal("grid color 5"), DslErrorKind::ExpectedColor);
    assert_eq!(refusal("line A B"), DslErrorKind::ExpectedArrow);
    assert_eq!(refusal("line A -> fn"), DslErrorKind::ExpectedIdent);
    assert_eq!(refusal("circle A 2"), DslErrorKind::ExpectedKeyword(Keyword::Radius));
    assert_eq!(refusal("ellipse A rx 1"), DslErrorKind::ExpectedKeyword(Keyword::Ry));
    assert_eq!(refusal("ellipse A ry 1"), DslErrorKind::ExpectedKeyword(Keyword::Rx));
    assert_eq!(refusal("arc A radius 1 from 0"), DslErrorKind::ExpectedKeyword(Keyword::To));
    assert_eq!(refusal("arc A radius 1 to 0"), DslErrorKind::ExpectedKeyword(Keyword::From));
    assert_eq!(refusal("viewport [0, 0] to [1, 1]"), DslErrorKind::ExpectedKeyword(Keyword::Size));
    assert_eq!(refusal("viewport [0, 0] size [1, 1]"), DslErrorKind::ExpectedParens);
    assert_eq!(refusal("viewport (0, 0) size (1, 1)"), DslErrorKind::ExpectedBrackets);
    assert_eq!(refusal("point (1 2)"), DslErrorKind::ExpectedComma);
    assert_eq!(refusal("point (1, 2, 3)"), DslErrorKind::UnexpectedToken);
    assert_eq!(refusal("point ()"), DslErrorKind::ExpectedExpr);
    assert_eq!(refusal("point (1, 2) size"), DslErrorKind::ExpectedExpr);
    assert_eq!(refusal("polygon A B"), DslErrorKind::TooFewPolygonPoints);
    assert_eq!(refusal("eq x in [0, 1]"), DslErrorKind::ExpectedString);
    assert_eq!(refusal("eq_param \"t\" in [0, 1]"), DslErrorKind::ExpectedString);
    assert_eq!(refusal("eq \"x\" [0, 1]"), DslErrorKind::ExpectedIdent);
    assert_eq!(refusal("eq \"x\" t [0, 1]"), DslErrorKind::ExpectedKeyword(Keyword::In));
    assert_eq!(refusal("for in x { }"), DslErrorKind::ExpectedPattern);
    assert_eq!(refusal("for x y { }"), DslErrorKind::ExpectedKeyword(Keyword::In));
    assert_eq!(refusal("loop point (0, 0)"), DslErrorKind::ExpectedBraces);
    assert_eq!(refusal("while { }"), DslErrorKind::ExpectedBraces);
    assert_eq!(refusal("if { }"), DslErrorKind::ExpectedBraces);
    assert_eq!(refusal("#"), DslErrorKind::ExpectedRustStmt);
    assert_eq!(refusal("for x in v { theme }"), DslErrorKind::ExpectedTheme);
}

#[test]
fn refusal_messages() {
    let message = |src: &str| match generate(&lex(src)) {
        Ok(_) => panic!("accepted"),
        Err(e) => e.message(),
    };
    assert_eq!(message("polygon A B"), "polygon needs at least 3 points");
    assert_eq!(message("circle A 2"), "expected `radius`");
    assert_eq!(message("theme blue"), "expected `light` or `dark`");
    assert_eq!(message("line A -> fn"), "expected identifier, found keyword `fn`");
    assert_eq!(message("circle A"), "unexpected end of input, expected `radius`");
    assert_eq!(message("point (1, )"), "unexpected end of input, expected an expression");
    assert_eq!(
        message("foo"),
        "expected one of: `viewport`, `theme`, `grid`, `axes`, `point`, `line`, `circle`, \
         `ellipse`, `arc`, `semicircle`, `polygon`, `curve`, `curve_param`, `eq`, `eq_param`"
    );
    assert_eq!(message("line A B"), "expected `->`");
}

#[test]
fn hex_colors_are_passed_on_by_value() {
    let grid = |c: &str| {
        block(&format!(
            "__scene = ::dgs::__private::Scene::grid(__scene, true);\
             __scene = ::dgs::__private::Scene::grid_color(__scene, {});",
            col(c)
        ))
    };
    assert_eq!(expand("grid color r\"#333\""), grid("\"#333\""));
    assert_eq!(expand("grid color r#\"#333\"#"), grid("\"#333\""));
    assert_eq!(expand("grid color \"#333\"sfx"), grid("\"#333\""));
    assert_eq!(expand("grid color \"\\x23333\""), grid("\"#333\""));
    assert_eq!(refusal("grid color b\"#333\""), DslErrorKind::ExpectedColor);
}
