//! What the scene language means: a statement list is read token by token
//! and turned into the Rust code that builds the scene.
//!
//! An embedded Rust expression (a coordinate, a radius, a loop condition)
//! is the longest run of tokens, not reaching past the next `;`, that
//! `syn` accepts as an expression; patterns and raw statements likewise.

use vstd::prelude::*;
use super::token::{lit_view, parsed_literal, source_of, syn_expr, syn_expr_no_struct, syn_pat, syn_stmt, Delim, TokView};

verus! {

/// Token trees, by their views.
pub type Toks = Seq<TokView>;

/// A keyword of the language that a statement requires at some point.
#[derive(Debug, Clone, Copy, PartialEq, Eq, Structural)]
pub enum Keyword {
    Size,
    To,
    Radius,
    Rx,
    Ry,
    From,
    In,
}

/// Why a statement list was refused.
#[derive(Debug, Clone, Copy, PartialEq, Eq, Structural)]
pub enum DslErrorKind {
    /// A statement does not start with a statement keyword, `for`,
    /// `while`, `loop`, `if` or `#`.
    ExpectedStatement,
    /// `theme` is not followed by `light` or `dark`.
    ExpectedTheme,
    /// A color is neither a name nor a string literal.
    ExpectedColor,
    /// An identifier (not a Rust keyword) is missing.
    ExpectedIdent,
    /// A string literal is missing.
    ExpectedString,
    /// A Rust expression is missing.
    ExpectedExpr,
    /// A Rust pattern is missing.
    ExpectedPattern,
    /// A Rust statement is missing after `#`.
    ExpectedRustStmt,
    /// A required keyword is missing.
    ExpectedKeyword(Keyword),
    /// A `,` between the two parts of a pair is missing.
    ExpectedComma,
    /// The `->` of a line or semicircle is missing.
    ExpectedArrow,
    /// A `( .. )` group is missing.
    ExpectedParens,
    /// A `[ .. ]` group is missing.
    ExpectedBrackets,
    /// A `{ .. }` body is missing.
    ExpectedBraces,
    /// A pair is followed by more tokens inside its group.
    UnexpectedToken,
    /// A polygon has fewer than three points.
    TooFewPolygonPoints,
}

pub type Res<T> = Result<T, DslErrorKind>;

/// The Rust syntax that a run of tokens is read as.
#[derive(Debug, Clone, Copy, PartialEq, Eq, Structural)]
pub enum Syntax {
    Expr,
    ExprNoStruct,
    Pat,
    Stmt,
}

/// `syn` accepts the source text of `s` as a whole `k`.
pub open spec fn accepts(k: Syntax, s: Toks) -> bool {
    match k {
        Syntax::Expr => syn_expr(source_of(s)),
        Syntax::ExprNoStruct => syn_expr_no_struct(source_of(s)),
        Syntax::Pat => syn_pat(source_of(s)),
        Syntax::Stmt => syn_stmt(source_of(s)),
    }
}

/// The names that `syn` does not take as identifiers (Rust keywords and `_`).
pub open spec fn reserved(w: Seq<char>) -> bool {
    w == "_"@ || w == "abstract"@ || w == "as"@ || w == "async"@ || w == "await"@ || w == "become"@
        || w == "box"@ || w == "break"@ || w == "const"@ || w == "continue"@ || w == "crate"@ || w
        == "do"@ || w == "dyn"@ || w == "else"@ || w == "enum"@ || w == "extern"@ || w == "false"@
        || w == "final"@ || w == "fn"@ || w == "for"@ || w == "if"@ || w == "impl"@ || w == "in"@
        || w == "let"@ || w == "loop"@ || w == "macro"@ || w == "match"@ || w == "mod"@ || w
        == "move"@ || w == "mut"@ || w == "override"@ || w == "priv"@ || w == "pub"@ || w == "ref"@
        || w == "return"@ || w == "Self"@ || w == "self"@ || w == "static"@ || w == "struct"@ || w
        == "super"@ || w == "trait"@ || w == "true"@ || w == "try"@ || w == "type"@ || w
        == "typeof"@ || w == "unsafe"@ || w == "unsized"@ || w == "use"@ || w == "virtual"@ || w
        == "where"@ || w == "while"@ || w == "yield"@
}

/// Token `i` is the word `w`.
pub open spec fn is_word(t: Toks, i: int, w: Seq<char>) -> bool {
    0 <= i < t.len() && t[i] == TokView::Ident(w)
}

/// Token `i` is an identifier that is not reserved.
pub open spec fn is_name(t: Toks, i: int) -> bool {
    0 <= i < t.len() && t[i] is Ident && !reserved(t[i]->Ident_0)
}

/// The name of identifier token `i` (empty for other tokens).
pub open spec fn text_at(t: Toks, i: int) -> Seq<char> {
    match t[i] {
        TokView::Ident(w) => w,
        _ => Seq::empty(),
    }
}

/// Token `i` is the punctuation `c`.
pub open spec fn is_punct(t: Toks, i: int, c: char) -> bool {
    0 <= i < t.len() && t[i] is Punct && t[i]->Punct_0 == c
}

/// Tokens `i`, `i + 1` are `->`.
pub open spec fn is_arrow(t: Toks, i: int) -> bool {
    is_punct(t, i, '-') && t[i]->Punct_1 && is_punct(t, i + 1, '>')
}

/// Token `i` is a group delimited by `d`.
pub open spec fn is_group(t: Toks, i: int, d: Delim) -> bool {
    0 <= i < t.len() && t[i] is Group && t[i]->Group_0 == d
}

/// The contents of group token `i`.
pub open spec fn inner(t: Toks, i: int) -> Toks {
    match t[i] {
        TokView::Group(_, g) => g,
        _ => Seq::empty(),
    }
}

/// Token `i` is a literal that `syn` reads as a string literal.
pub open spec fn is_str(t: Toks, i: int) -> bool {
    0 <= i < t.len() && t[i] is Str
}

/// The value of string literal token `i`.
pub open spec fn str_value_at(t: Toks, i: int) -> Seq<char> {
    t[i]->Str_0
}

/// The position of the first `;` at or after `i` (the length if none).
pub open spec fn semi_from(t: Toks, i: int) -> int
    decreases t.len() - i,
{
    if i < 0 || i >= t.len() {
        t.len() as int
    } else if is_punct(t, i, ';') {
        i
    } else {
        semi_from(t, i + 1)
    }
}

/// The largest `m` in `1..=n` for which `syn` accepts `t[i..i + m]` as a
/// `k`.
pub open spec fn longest(k: Syntax, t: Toks, i: int, n: nat) -> Option<nat>
    decreases n,
{
    if n == 0 {
        None
    } else if accepts(k, t.subrange(i, i + n)) {
        Some(n)
    } else {
        longest(k, t, i, (n - 1) as nat)
    }
}

/// Where a `k` that starts at `i` must end: at the next `;`, or just after
/// it for a statement (which may end with it).
pub open spec fn run_limit(k: Syntax, t: Toks, i: int) -> int {
    let s = semi_from(t, i);
    if k == Syntax::Stmt && s < t.len() {
        s + 1
    } else {
        s
    }
}

/// How many tokens from `i` on form the `k` that starts there: the longest
/// accepted run that does not reach past the next `;` (a statement may end
/// with it).
pub open spec fn rust_len(k: Syntax, t: Toks, i: int) -> Option<nat> {
    let lim = run_limit(k, t, i);
    if 0 <= i < lim <= t.len() {
        longest(k, t, i, (lim - i) as nat)
    } else {
        None
    }
}

/// `semi_from` is the first `;` at or after `i`, or the end.
pub proof fn lemma_semi_from(t: Toks, i: int)
    requires
        0 <= i <= t.len(),
    ensures
        i <= semi_from(t, i) <= t.len(),
        semi_from(t, i) < t.len() ==> is_punct(t, semi_from(t, i), ';'),
        forall|j: int| i <= j < semi_from(t, i) ==> !is_punct(t, j, ';'),
    decreases t.len() - i,
{
    if i < t.len() && !is_punct(t, i, ';') {
        lemma_semi_from(t, i + 1);
    }
}

/// `longest` picks the largest accepted length in `1..=n`.
pub proof fn lemma_longest(k: Syntax, t: Toks, i: int, n: nat)
    ensures
        match longest(k, t, i, n) {
            Some(m) => 1 <= m <= n && accepts(k, t.subrange(i, i + m)) && forall|j: int|
                m < j <= n ==> !accepts(k, #[trigger] t.subrange(i, i + j)),
            None => forall|j: int| 1 <= j <= n ==> !accepts(k, #[trigger] t.subrange(i, i + j)),
        },
    decreases n,
{
    if n > 0 && !accepts(k, t.subrange(i, i + n)) {
        lemma_longest(k, t, i, (n - 1) as nat);
    }
}

/// The run that `rust_len` picks is accepted by `syn`, stays within the
/// limit set by the next `;`, and no longer run within that limit is
/// accepted; where it picks none, no run within the limit is accepted.
pub proof fn lemma_rust_len_is_longest(k: Syntax, t: Toks, i: int)
    requires
        0 <= i <= t.len(),
    ensures
        i <= run_limit(k, t, i) <= t.len(),
        forall|j: int| i <= j < run_limit(k, t, i) && j < semi_from(t, i) ==> !is_punct(t, j, ';'),
        match rust_len(k, t, i) {
            Some(n) => 1 <= n && i + n <= run_limit(k, t, i) && accepts(k, t.subrange(i, i + n))
                && forall|m: int|
                i + n < i + m <= run_limit(k, t, i) ==> !accepts(k, #[trigger] t.subrange(i, i + m)),
            None => forall|m: int|
                1 <= m && i + m <= run_limit(k, t, i) ==> !accepts(k, #[trigger] t.subrange(i, i + m)),
        },
{
    lemma_semi_from(t, i);
    let lim = run_limit(k, t, i);
    if i < lim {
        lemma_longest(k, t, i, (lim - i) as nat);
    }
}

// ---------------------------------------------------------------------------
// The code that statements become.
// ---------------------------------------------------------------------------

/// An identifier.
pub open spec fn id(w: Seq<char>) -> TokView {
    TokView::Ident(w)
}

/// A punctuation character not joined to the next one.
pub open spec fn pa(c: char) -> TokView {
    TokView::Punct(c, false)
}

/// A parenthesized group.
pub open spec fn paren(c: Toks) -> TokView {
    TokView::Group(Delim::Paren, c)
}

/// A braced group.
pub open spec fn brace(c: Toks) -> TokView {
    TokView::Group(Delim::Brace, c)
}

/// A string literal whose value is `w`.
pub open spec fn str_of(w: Seq<char>) -> TokView {
    TokView::Str(w)
}

/// The number literal written `text`, as `str::parse::<Literal>` makes it
/// (a string literal of `text` where that parse refuses it).
pub open spec fn num(text: Seq<char>) -> TokView {
    match parsed_literal(text) {
        Some(p) => lit_view(p),
        None => str_of(text),
    }
}

/// `::s1::s2...` for the segments `segs`.
pub open spec fn path(segs: Seq<Seq<char>>) -> Toks
    decreases segs.len(),
{
    if segs.len() == 0 {
        Seq::empty()
    } else {
        seq![TokView::Punct(':', true), pa(':'), id(segs[0])] + path(segs.drop_first())
    }
}

/// `::dgs::__private::` followed by the segments `segs`.
pub open spec fn private(segs: Seq<Seq<char>>) -> Toks {
    path(seq!["dgs"@, "__private"@] + segs)
}

/// `e as f64`.
pub open spec fn as_f64(e: Toks) -> Toks {
    e + seq![id("as"@), id("f64"@)]
}

/// `.m(args)`.
pub open spec fn method(m: Seq<char>, args: Toks) -> Toks {
    seq![pa('.'), id(m), paren(args)]
}

/// `__scene = ::dgs::__private::Scene::m(__scene, args);`.
pub open spec fn scene_call(m: Seq<char>, args: Toks) -> Toks {
    seq![id("__scene"@), pa('=')] + private(seq!["Scene"@, m]) + seq![
        paren(seq![id("__scene"@), pa(',')] + args),
        pa(';'),
    ]
}

/// `a, b` of two expressions, each `as f64`.
pub open spec fn f64_pair(a: Toks, b: Toks) -> Toks {
    as_f64(a) + seq![pa(',')] + as_f64(b)
}

/// `::dgs::__private::color(lit)`: a call of the library's `color` on the
/// string literal `lit` (which must name a color or be a hex color).
pub open spec fn color_call(lit: TokView) -> Toks {
    private(seq!["color"@]) + seq![paren(seq![lit])]
}

/// The items `xs` separated by `,`.
pub open spec fn comma_list(xs: Seq<Toks>) -> Toks
    decreases xs.len(),
{
    if xs.len() == 0 {
        Seq::empty()
    } else if xs.len() == 1 {
        xs[0]
    } else {
        xs[0] + seq![pa(',')] + comma_list(xs.drop_first())
    }
}

/// Some code, or none.
pub open spec fn opt(o: Option<Toks>) -> Toks {
    match o {
        Some(c) => c,
        None => Seq::empty(),
    }
}

/// Some code wrapped by `f`, or none.
pub open spec fn opt_method(m: Seq<char>, o: Option<Toks>) -> Toks {
    match o {
        Some(c) => method(m, c),
        None => Seq::empty(),
    }
}

/// Some code wrapped in a scene call, or none.
pub open spec fn opt_scene_call(m: Seq<char>, o: Option<Toks>) -> Toks {
    match o {
        Some(c) => scene_call(m, c),
        None => Seq::empty(),
    }
}


// ---------------------------------------------------------------------------
// Reading statements.
// ---------------------------------------------------------------------------

/// How far `i` is from the end (0 past it): what reading from `i` on
/// decreases.
pub open spec fn left(t: Toks, i: int) -> int {
    if i <= t.len() {
        t.len() - i
    } else {
        0
    }
}

/// The tokens of the `k` that starts at `i`, as a count.
pub open spec fn rust_at(k: Syntax, t: Toks, i: int, e: DslErrorKind) -> Res<nat> {
    match rust_len(k, t, i) {
        Some(n) => Ok(n),
        None => Err(e),
    }
}

/// An expression that fills a group's contents up to a `,`, and another
/// that fills the rest.
pub open spec fn pair(g: Toks) -> Res<(Toks, Toks)> {
    match rust_len(Syntax::Expr, g, 0) {
        None => Err(DslErrorKind::ExpectedExpr),
        Some(n) => if !is_punct(g, n as int, ',') {
            Err(DslErrorKind::ExpectedComma)
        } else {
            match rust_len(Syntax::Expr, g, (n + 1) as int) {
                None => Err(DslErrorKind::ExpectedExpr),
                Some(m) => if n + 1 + m == g.len() {
                    Ok((g.subrange(0, n as int), g.subrange((n + 1) as int, (n + 1 + m) as int)))
                } else {
                    Err(DslErrorKind::UnexpectedToken)
                },
            }
        },
    }
}

/// The pair in group token `i`, delimited by `d`.
pub open spec fn group_pair(t: Toks, i: int, d: Delim) -> Res<(Toks, Toks)> {
    if is_group(t, i, d) {
        pair(inner(t, i))
    } else if d == Delim::Paren {
        Err(DslErrorKind::ExpectedParens)
    } else {
        Err(DslErrorKind::ExpectedBrackets)
    }
}

/// The code of the point reference at token `i`: `(x, y)` coordinates or a
/// point's name.
pub open spec fn point_ref(t: Toks, i: int) -> Res<Toks> {
    if is_group(t, i, Delim::Paren) {
        match pair(inner(t, i)) {
            Ok((x, y)) => Ok(private(seq!["PointRef"@, "at"@]) + seq![paren(f64_pair(x, y))]),
            Err(e) => Err(e),
        }
    } else if is_name(t, i) {
        Ok(private(seq!["PointRef"@, "named"@]) + seq![paren(seq![str_of(text_at(t, i))])])
    } else {
        Err(DslErrorKind::ExpectedIdent)
    }
}

/// The code of the color at token `i`: a color name or a string literal.
pub open spec fn color_spec(t: Toks, i: int) -> Res<Toks> {
    if is_name(t, i) {
        Ok(color_call(str_of(text_at(t, i))))
    } else if is_str(t, i) {
        Ok(color_call(str_of(str_value_at(t, i))))
    } else {
        Err(DslErrorKind::ExpectedColor)
    }
}

/// The settings `spacing e`, `width e`, `color c` after `grid`, from `j`
/// on (a later one replacing an earlier one): the code of each and the
/// tokens read.
pub open spec fn grid_opts(t: Toks, j: int, sp: Option<Toks>, w: Option<Toks>, c: Option<Toks>) -> Res<
    (Option<Toks>, Option<Toks>, Option<Toks>, nat),
>
    decreases left(t, j),
{
    if is_word(t, j, "spacing"@) {
        match rust_at(Syntax::Expr, t, j + 1, DslErrorKind::ExpectedExpr) {
            Err(e) => Err(e),
            Ok(n) => match grid_opts(t, j + 1 + n, Some(as_f64(t.subrange(j + 1, j + 1 + n))), w, c) {
                Err(e) => Err(e),
                Ok((a, b, d, m)) => Ok((a, b, d, 1 + n + m)),
            },
        }
    } else if is_word(t, j, "width"@) {
        match rust_at(Syntax::Expr, t, j + 1, DslErrorKind::ExpectedExpr) {
            Err(e) => Err(e),
            Ok(n) => match grid_opts(t, j + 1 + n, sp, Some(as_f64(t.subrange(j + 1, j + 1 + n))), c) {
                Err(e) => Err(e),
                Ok((a, b, d, m)) => Ok((a, b, d, 1 + n + m)),
            },
        }
    } else if is_word(t, j, "color"@) {
        match color_spec(t, j + 1) {
            Err(e) => Err(e),
            Ok(cc) => match grid_opts(t, j + 2, sp, w, Some(cc)) {
                Err(e) => Err(e),
                Ok((a, b, d, m)) => Ok((a, b, d, 2 + m)),
            },
        }
    } else {
        Ok((sp, w, c, 0))
    }
}

/// The settings `width e`, `color c`, `label_size e` after `axes`, from
/// `j` on.
pub open spec fn axes_opts(t: Toks, j: int, w: Option<Toks>, c: Option<Toks>, ls: Option<Toks>) -> Res<
    (Option<Toks>, Option<Toks>, Option<Toks>, nat),
>
    decreases left(t, j),
{
    if is_word(t, j, "width"@) {
        match rust_at(Syntax::Expr, t, j + 1, DslErrorKind::ExpectedExpr) {
            Err(e) => Err(e),
            Ok(n) => match axes_opts(t, j + 1 + n, Some(as_f64(t.subrange(j + 1, j + 1 + n))), c, ls) {
                Err(e) => Err(e),
                Ok((a, b, d, m)) => Ok((a, b, d, 1 + n + m)),
            },
        }
    } else if is_word(t, j, "color"@) {
        match color_spec(t, j + 1) {
            Err(e) => Err(e),
            Ok(cc) => match axes_opts(t, j + 2, w, Some(cc), ls) {
                Err(e) => Err(e),
                Ok((a, b, d, m)) => Ok((a, b, d, 2 + m)),
            },
        }
    } else if is_word(t, j, "label_size"@) {
        match rust_at(Syntax::Expr, t, j + 1, DslErrorKind::ExpectedExpr) {
            Err(e) => Err(e),
            Ok(n) => match axes_opts(t, j + 1 + n, w, c, Some(as_f64(t.subrange(j + 1, j + 1 + n)))) {
                Err(e) => Err(e),
                Ok((a, b, d, m)) => Ok((a, b, d, 1 + n + m)),
            },
        }
    } else {
        Ok((w, c, ls, 0))
    }
}

/// The styles `color c`, `stroke e`, `fill c` after an object, from `j`
/// on.
pub open spec fn style_opts(t: Toks, j: int, c: Option<Toks>, s: Option<Toks>, f: Option<Toks>) -> Res<
    (Option<Toks>, Option<Toks>, Option<Toks>, nat),
>
    decreases left(t, j),
{
    if is_word(t, j, "color"@) {
        match color_spec(t, j + 1) {
            Err(e) => Err(e),
            Ok(cc) => match style_opts(t, j + 2, Some(cc), s, f) {
                Err(e) => Err(e),
                Ok((a, b, d, m)) => Ok((a, b, d, 2 + m)),
            },
        }
    } else if is_word(t, j, "stroke"@) {
        match rust_at(Syntax::Expr, t, j + 1, DslErrorKind::ExpectedExpr) {
            Err(e) => Err(e),
            Ok(n) => match style_opts(t, j + 1 + n, c, Some(as_f64(t.subrange(j + 1, j + 1 + n))), f) {
                Err(e) => Err(e),
                Ok((a, b, d, m)) => Ok((a, b, d, 1 + n + m)),
            },
        }
    } else if is_word(t, j, "fill"@) {
        match color_spec(t, j + 1) {
            Err(e) => Err(e),
            Ok(cc) => match style_opts(t, j + 2, c, s, Some(cc)) {
                Err(e) => Err(e),
                Ok((a, b, d, m)) => Ok((a, b, d, 2 + m)),
            },
        }
    } else {
        Ok((c, s, f, 0))
    }
}

/// The options `cw`, `ccw`, `center p` after a semicircle's ends, from `j`
/// on: clockwise or not, the center's code, and the tokens read.
pub open spec fn semi_opts(t: Toks, j: int, cw: bool, center: Option<Toks>) -> Res<(bool, Option<Toks>, nat)>
    decreases left(t, j),
{
    if is_word(t, j, "cw"@) {
        match semi_opts(t, j + 1, true, center) {
            Err(e) => Err(e),
            Ok((a, b, m)) => Ok((a, b, 1 + m)),
        }
    } else if is_word(t, j, "ccw"@) {
        match semi_opts(t, j + 1, false, center) {
            Err(e) => Err(e),
            Ok((a, b, m)) => Ok((a, b, 1 + m)),
        }
    } else if is_word(t, j, "center"@) {
        match point_ref(t, j + 1) {
            Err(e) => Err(e),
            Ok(p) => match semi_opts(t, j + 2, cw, Some(p)) {
                Err(e) => Err(e),
                Ok((a, b, m)) => Ok((a, b, 2 + m)),
            },
        }
    } else {
        Ok((cw, center, 0))
    }
}

/// A name or coordinates that continue a polygon's points at `j` (not one
/// of the style words).
pub open spec fn more_points(t: Toks, j: int) -> bool {
    (is_name(t, j) || is_group(t, j, Delim::Paren)) && !is_word(t, j, "color"@) && !is_word(
        t,
        j,
        "stroke"@,
    ) && !is_word(t, j, "fill"@)
}

/// The further points of a polygon from `j` on, appended to `pts`.
pub open spec fn poly_points(t: Toks, j: int, pts: Seq<Toks>) -> Res<(Seq<Toks>, nat)>
    decreases left(t, j),
{
    if more_points(t, j) {
        match point_ref(t, j) {
            Err(e) => Err(e),
            Ok(p) => match poly_points(t, j + 1, pts.push(p)) {
                Err(e) => Err(e),
                Ok((a, m)) => Ok((a, 1 + m)),
            },
        }
    } else {
        Ok((pts, 0))
    }
}

/// The words that start an object.
pub open spec fn object_word(w: Seq<char>) -> bool {
    w == "point"@ || w == "line"@ || w == "circle"@ || w == "ellipse"@ || w == "arc"@ || w
        == "semicircle"@ || w == "polygon"@ || w == "curve"@ || w == "curve_param"@ || w == "eq"@
        || w == "eq_param"@
}

/// An optional trailing `kw e` at `j`: the expression's code `as f64`
/// and the tokens read.
pub open spec fn opt_expr(t: Toks, j: int, kw: Seq<char>) -> Res<(Option<Toks>, nat)> {
    if is_word(t, j, kw) {
        match rust_at(Syntax::Expr, t, j + 1, DslErrorKind::ExpectedExpr) {
            Err(e) => Err(e),
            Ok(n) => Ok((Some(as_f64(t.subrange(j + 1, j + 1 + n))), 1 + n)),
        }
    } else {
        Ok((None, 0))
    }
}

/// The keyword `kw` at `j` followed by an expression: the expression's
/// tokens and their count.
pub open spec fn kw_expr(t: Toks, j: int, kw: Seq<char>, which: Keyword) -> Res<(Toks, nat)> {
    if !is_word(t, j, kw) {
        Err(DslErrorKind::ExpectedKeyword(which))
    } else {
        match rust_at(Syntax::Expr, t, j + 1, DslErrorKind::ExpectedExpr) {
            Err(e) => Err(e),
            Ok(n) => Ok((t.subrange(j + 1, j + 1 + n), n)),
        }
    }
}


/// The value `10.0` that a viewport without `to [..]` ends at.
pub open spec fn ten() -> Toks {
    seq![num("10.0"@)]
}

/// A point: `point A (x, y)` or `point (x, y)`, then `size e` if given.
pub open spec fn obj_point(t: Toks, i: int) -> Res<(Toks, nat)> {
    let named = is_name(t, i + 1);
    let k = if named {
        i + 2
    } else {
        i + 1
    };
    match group_pair(t, k, Delim::Paren) {
        Err(e) => Err(e),
        Ok((x, y)) => match opt_expr(t, k + 1, "size"@) {
            Err(e) => Err(e),
            Ok((size, n)) => {
                let head = if named {
                    private(seq!["point"@]) + seq![
                        paren(seq![str_of(text_at(t, i + 1)), pa(',')] + f64_pair(x, y)),
                    ]
                } else {
                    private(seq!["point_at"@]) + seq![paren(f64_pair(x, y))]
                };
                Ok((head + opt_method("with_size"@, size), ((k - i) + n) as nat))
            },
        },
    }
}

/// A line: `line p -> q`.
pub open spec fn obj_line(t: Toks, i: int) -> Res<(Toks, nat)> {
    match point_ref(t, i + 1) {
        Err(e) => Err(e),
        Ok(f) => if !is_arrow(t, i + 2) {
            Err(DslErrorKind::ExpectedArrow)
        } else {
            match point_ref(t, i + 4) {
                Err(e) => Err(e),
                Ok(g) => Ok((private(seq!["line"@]) + seq![paren(f + seq![pa(',')] + g)], 4)),
            }
        },
    }
}

/// A circle: `circle p radius e`.
pub open spec fn obj_circle(t: Toks, i: int) -> Res<(Toks, nat)> {
    match point_ref(t, i + 1) {
        Err(e) => Err(e),
        Ok(c) => match kw_expr(t, i + 2, "radius"@, Keyword::Radius) {
            Err(e) => Err(e),
            Ok((r, n)) => Ok(
                (private(seq!["circle"@]) + seq![paren(c + seq![pa(',')] + as_f64(r))], 2 + n),
            ),
        },
    }
}

/// An ellipse: `ellipse p rx e ry e`, then `rot e` if given.
pub open spec fn obj_ellipse(t: Toks, i: int) -> Res<(Toks, nat)> {
    match point_ref(t, i + 1) {
        Err(e) => Err(e),
        Ok(c) => match kw_expr(t, i + 2, "rx"@, Keyword::Rx) {
            Err(e) => Err(e),
            Ok((rx, n1)) => match kw_expr(t, i + 3 + n1, "ry"@, Keyword::Ry) {
                Err(e) => Err(e),
                Ok((ry, n2)) => match opt_expr(t, i + 4 + n1 + n2, "rot"@) {
                    Err(e) => Err(e),
                    Ok((rot, n3)) => Ok(
                        (
                            private(seq!["ellipse"@]) + seq![
                                paren(c + seq![pa(',')] + f64_pair(rx, ry)),
                            ] + opt_method("with_rotation"@, rot),
                            3 + n1 + n2 + n3,
                        ),
                    ),
                },
            },
        },
    }
}

/// An arc: `arc p radius e from e to e`.
pub open spec fn obj_arc(t: Toks, i: int) -> Res<(Toks, nat)> {
    match point_ref(t, i + 1) {
        Err(e) => Err(e),
        Ok(c) => match kw_expr(t, i + 2, "radius"@, Keyword::Radius) {
            Err(e) => Err(e),
            Ok((r, n1)) => match kw_expr(t, i + 3 + n1, "from"@, Keyword::From) {
                Err(e) => Err(e),
                Ok((a, n2)) => match kw_expr(t, i + 4 + n1 + n2, "to"@, Keyword::To) {
                    Err(e) => Err(e),
                    Ok((b, n3)) => Ok(
                        (
                            private(seq!["arc"@]) + seq![
                                paren(c + seq![pa(',')] + as_f64(r) + seq![pa(',')] + f64_pair(a, b)),
                            ],
                            4 + n1 + n2 + n3,
                        ),
                    ),
                },
            },
        },
    }
}

/// A semicircle: `semicircle p -> q`, then `cw`, `ccw`, `center p`.
pub open spec fn obj_semicircle(t: Toks, i: int) -> Res<(Toks, nat)> {
    match point_ref(t, i + 1) {
        Err(e) => Err(e),
        Ok(f) => if !is_arrow(t, i + 2) {
            Err(DslErrorKind::ExpectedArrow)
        } else {
            match point_ref(t, i + 4) {
                Err(e) => Err(e),
                Ok(g) => match semi_opts(t, i + 5, false, None) {
                    Err(e) => Err(e),
                    Ok((cw, center, m)) => Ok(
                        (
                            private(seq!["semicircle"@]) + seq![paren(f + seq![pa(',')] + g)]
                                + method(
                                "with_dir"@,
                                private(
                                    seq![
                                        "SemicircleDir"@,
                                        if cw {
                                            "Clockwise"@
                                        } else {
                                            "CounterClockwise"@
                                        },
                                    ],
                                ),
                            ) + opt_method("with_center"@, center),
                            4 + m,
                        ),
                    ),
                },
            }
        },
    }
}

/// A polygon: `polygon p q r ...`, at least three points.
pub open spec fn obj_polygon(t: Toks, i: int) -> Res<(Toks, nat)> {
    match point_ref(t, i + 1) {
        Err(e) => Err(e),
        Ok(p) => match poly_points(t, i + 2, seq![p]) {
            Err(e) => Err(e),
            Ok((pts, m)) => if pts.len() < 3 {
                Err(DslErrorKind::TooFewPolygonPoints)
            } else {
                Ok(
                    (
                        private(seq!["polygon"@]) + seq![
                            paren(
                                seq![
                                    id("vec"@),
                                    pa('!'),
                                    TokView::Group(Delim::Bracket, comma_list(pts)),
                                ],
                            ),
                        ],
                        1 + m,
                    ),
                )
            },
        },
    }
}

/// A curve: `eq "f" in [a, b]` or `eq "f" v in [a, b]` (also `curve`), or a
/// parametric curve `eq_param "x" "y" in [a, b]` (also `curve_param`).
pub open spec fn obj_curve(t: Toks, i: int) -> Res<(Toks, nat)> {
    let w = text_at(t, i);
    if w == "curve_param"@ || w == "eq_param"@ {
        if !is_str(t, i + 1) || !is_str(t, i + 2) {
            Err(DslErrorKind::ExpectedString)
        } else if !is_word(t, i + 3, "in"@) {
            Err(DslErrorKind::ExpectedKeyword(Keyword::In))
        } else {
            match group_pair(t, i + 4, Delim::Bracket) {
                Err(e) => Err(e),
                Ok((a, b)) => Ok(
                    (
                        private(seq!["eq_param"@]) + seq![paren(seq![t[i + 1], pa(','), t[i + 2]])]
                            + method("with_range"@, f64_pair(a, b)),
                        4,
                    ),
                ),
            }
        }
    } else if !is_str(t, i + 1) {
        Err(DslErrorKind::ExpectedString)
    } else if !is_word(t, i + 2, "in"@) && !is_name(t, i + 2) {
        Err(DslErrorKind::ExpectedIdent)
    } else {
        let default_var = is_word(t, i + 2, "in"@);
        let var = if default_var {
            "x"@
        } else {
            text_at(t, i + 2)
        };
        let k = if default_var {
            i + 2
        } else {
            i + 3
        };
        if !is_word(t, k, "in"@) {
            Err(DslErrorKind::ExpectedKeyword(Keyword::In))
        } else {
            match group_pair(t, k + 1, Delim::Bracket) {
                Err(e) => Err(e),
                Ok((a, b)) => Ok(
                    (
                        private(seq!["eq"@]) + seq![paren(seq![t[i + 1]])] + method(
                            "with_var"@,
                            seq![str_of(var)],
                        ) + method("with_range"@, f64_pair(a, b)),
                        (k + 1 - i) as nat,
                    ),
                ),
            }
        }
    }
}

/// The object that starts at token `i` (an object word): its code and the
/// tokens read after the word.
pub open spec fn obj(t: Toks, i: int) -> Res<(Toks, nat)> {
    let w = text_at(t, i);
    if w == "point"@ {
        obj_point(t, i)
    } else if w == "line"@ {
        obj_line(t, i)
    } else if w == "circle"@ {
        obj_circle(t, i)
    } else if w == "ellipse"@ {
        obj_ellipse(t, i)
    } else if w == "arc"@ {
        obj_arc(t, i)
    } else if w == "semicircle"@ {
        obj_semicircle(t, i)
    } else if w == "polygon"@ {
        obj_polygon(t, i)
    } else {
        obj_curve(t, i)
    }
}

/// `viewport [x1, y1] to [x2, y2] size (w, h)` at token `i` (`to [..]`
/// may be left out: it ends at `[10.0, 10.0]`).
pub open spec fn tr_viewport(t: Toks, i: int) -> Res<(Toks, nat)> {
    match group_pair(t, i + 1, Delim::Bracket) {
        Err(e) => Err(e),
        Ok((x1, y1)) => {
            let has_to = is_word(t, i + 2, "to"@);
            let second = if has_to {
                group_pair(t, i + 3, Delim::Bracket)
            } else {
                Ok((ten(), ten()))
            };
            let s = if has_to {
                i + 4
            } else {
                i + 2
            };
            match second {
                Err(e) => Err(e),
                Ok((x2, y2)) => if !is_word(t, s, "size"@) {
                    Err(DslErrorKind::ExpectedKeyword(Keyword::Size))
                } else {
                    match group_pair(t, s + 1, Delim::Paren) {
                        Err(e) => Err(e),
                        Ok((w, h)) => Ok(
                            (
                                scene_call(
                                    "viewport"@,
                                    private(seq!["Viewport"@, "new"@]) + seq![
                                        paren(
                                            f64_pair(x1, y1) + seq![pa(',')] + f64_pair(x2, y2)
                                                + seq![pa(',')] + f64_pair(w, h),
                                        ),
                                        pa(','),
                                    ],
                                ),
                                (s + 1 - i) as nat,
                            ),
                        ),
                    }
                },
            }
        },
    }
}

/// `theme light` or `theme dark` at token `i`.
pub open spec fn tr_theme(t: Toks, i: int) -> Res<(Toks, nat)> {
    if is_word(t, i + 1, "light"@) {
        Ok((scene_call("theme"@, private(seq!["Theme"@, "light"@]) + seq![paren(seq![])]), 1))
    } else if is_word(t, i + 1, "dark"@) {
        Ok((scene_call("theme"@, private(seq!["Theme"@, "dark"@]) + seq![paren(seq![])]), 1))
    } else {
        Err(DslErrorKind::ExpectedTheme)
    }
}

/// `grid` and its settings at token `i`.
pub open spec fn tr_grid(t: Toks, i: int) -> Res<(Toks, nat)> {
    match grid_opts(t, i + 1, None, None, None) {
        Err(e) => Err(e),
        Ok((sp, w, c, m)) => Ok(
            (
                scene_call("grid"@, seq![id("true"@)]) + opt_scene_call("grid_spacing"@, sp)
                    + opt_scene_call("grid_width"@, w) + opt_scene_call("grid_color"@, c),
                m,
            ),
        ),
    }
}

/// `axes` and its settings at token `i`.
pub open spec fn tr_axes(t: Toks, i: int) -> Res<(Toks, nat)> {
    match axes_opts(t, i + 1, None, None, None) {
        Err(e) => Err(e),
        Ok((w, c, ls, m)) => Ok(
            (
                scene_call("axes"@, seq![id("true"@)]) + opt_scene_call("axis_width"@, w)
                    + opt_scene_call("axis_color"@, c) + opt_scene_call("axis_label_size"@, ls),
                m,
            ),
        ),
    }
}

/// An object and its styles at token `i`, pushed on the scene.
pub open spec fn tr_push(t: Toks, i: int) -> Res<(Toks, nat)> {
    match obj(t, i) {
        Err(e) => Err(e),
        Ok((o, n)) => match style_opts(t, i + 1 + n, None, None, None) {
            Err(e) => Err(e),
            Ok((c, s, f, m)) => Ok(
                (
                    scene_call(
                        "push"@,
                        o + opt_method("with_color"@, c) + opt_method("with_stroke"@, s)
                            + opt_method("with_fill"@, f),
                    ),
                    n + m,
                ),
            ),
        },
    }
}

/// A statement that is not Rust control flow, at token `i`: its code and
/// the tokens read after its first.
pub open spec fn tr_simple(t: Toks, i: int) -> Res<(Toks, nat)> {
    if is_word(t, i, "viewport"@) {
        tr_viewport(t, i)
    } else if is_word(t, i, "theme"@) {
        tr_theme(t, i)
    } else if is_word(t, i, "grid"@) {
        tr_grid(t, i)
    } else if is_word(t, i, "axes"@) {
        tr_axes(t, i)
    } else if 0 <= i < t.len() && t[i] is Ident && object_word(text_at(t, i)) {
        tr_push(t, i)
    } else {
        Err(DslErrorKind::ExpectedStatement)
    }
}

/// The statements of `t` from `i` on, each followed by an optional `;`:
/// their code.
pub open spec fn tr_stmts(t: Toks, i: int) -> Res<Toks>
    decreases t, left(t, i), 2int,
{
    if i < 0 || i >= t.len() {
        Ok(Seq::empty())
    } else {
        match tr_stmt(t, i) {
            Err(e) => Err(e),
            Ok((c, n)) => {
                let j = i + 1 + n;
                let j2 = if is_punct(t, j, ';') {
                    j + 1
                } else {
                    j
                };
                match tr_stmts(t, j2) {
                    Err(e) => Err(e),
                    Ok(rest) => Ok(c + rest),
                }
            },
        }
    }
}

/// The braced body at token `b`: its code.
pub open spec fn tr_body(t: Toks, b: int) -> Res<Toks>
    decreases t, left(t, b), 0int,
{
    if is_group(t, b, Delim::Brace) {
        let g = inner(t, b);
        proof {
            assert(decreases_to!(t => t[b]));
        }
        tr_stmts(g, 0)
    } else {
        Err(DslErrorKind::ExpectedBraces)
    }
}

/// The statement at token `i`: its code and the tokens read after its
/// first.
pub open spec fn tr_stmt(t: Toks, i: int) -> Res<(Toks, nat)>
    decreases t, left(t, i), 1int,
{
    if is_word(t, i, "for"@) {
        match rust_at(Syntax::Pat, t, i + 1, DslErrorKind::ExpectedPattern) {
            Err(e) => Err(e),
            Ok(np) => {
                let p = i + 1 + np;
                if !is_word(t, p, "in"@) {
                    Err(DslErrorKind::ExpectedKeyword(Keyword::In))
                } else {
                    match rust_at(Syntax::ExprNoStruct, t, p + 1, DslErrorKind::ExpectedExpr) {
                        Err(e) => Err(e),
                        Ok(ne) => {
                            let b = p + 1 + ne;
                            match tr_body(t, b) {
                                Err(e) => Err(e),
                                Ok(body) => Ok(
                                    (
                                        seq![id("for"@)] + t.subrange(i + 1, p) + seq![id("in"@)]
                                            + t.subrange(p + 1, b) + seq![brace(body)],
                                        np + ne + 2,
                                    ),
                                ),
                            }
                        },
                    }
                }
            },
        }
    } else if is_word(t, i, "while"@) {
        match rust_at(Syntax::ExprNoStruct, t, i + 1, DslErrorKind::ExpectedExpr) {
            Err(e) => Err(e),
            Ok(ne) => match tr_body(t, i + 1 + ne) {
                Err(e) => Err(e),
                Ok(body) => Ok(
                    (
                        seq![id("while"@)] + t.subrange(i + 1, i + 1 + ne) + seq![brace(body)],
                        ne + 1,
                    ),
                ),
            },
        }
    } else if is_word(t, i, "loop"@) {
        match tr_body(t, i + 1) {
            Err(e) => Err(e),
            Ok(body) => Ok((seq![id("loop"@), brace(body)], 1)),
        }
    } else if is_word(t, i, "if"@) {
        tr_if(t, i)
    } else if is_punct(t, i, '#') {
        match rust_at(Syntax::Stmt, t, i + 1, DslErrorKind::ExpectedRustStmt) {
            Err(e) => Err(e),
            Ok(n) => Ok((t.subrange(i + 1, i + 1 + n), n)),
        }
    } else {
        tr_simple(t, i)
    }
}

/// `if c { .. }`, then `else { .. }` or `else if ..`, at token `i`.
pub open spec fn tr_if(t: Toks, i: int) -> Res<(Toks, nat)>
    decreases t, left(t, i), 0int,
{
    match rust_at(Syntax::ExprNoStruct, t, i + 1, DslErrorKind::ExpectedExpr) {
        Err(e) => Err(e),
        Ok(ne) => {
            let b = i + 1 + ne;
            match tr_body(t, b) {
                Err(e) => Err(e),
                Ok(body) => {
                    let head = seq![id("if"@)] + t.subrange(i + 1, b) + seq![brace(body)];
                    if !is_word(t, b + 1, "else"@) {
                        Ok((head, ne + 1))
                    } else if is_word(t, b + 2, "if"@) {
                        match tr_if(t, b + 2) {
                            Err(e) => Err(e),
                            Ok((rest, n2)) => Ok(
                                (head + seq![id("else"@)] + rest, ne + 3 + n2),
                            ),
                        }
                    } else {
                        match tr_body(t, b + 2) {
                            Err(e) => Err(e),
                            Ok(other) => Ok(
                                (head + seq![id("else"@), brace(other)], ne + 3),
                            ),
                        }
                    }
                },
            }
        },
    }
}

/// The numbers of the viewport a scene starts with.
pub open spec fn start_viewport() -> Toks {
    seq![
        num("0.0"@),
        pa(','),
        num("0.0"@),
        pa(','),
        num("10.0"@),
        pa(','),
        num("10.0"@),
        pa(','),
        num("400.0"@),
        pa(','),
        num("400.0"@),
    ]
}

/// `#[allow(unused_mut)] let mut __scene = Scene::new(Viewport::new(..),);`
pub open spec fn prelude() -> Toks {
    seq![
        pa('#'),
        TokView::Group(Delim::Bracket, seq![id("allow"@), paren(seq![id("unused_mut"@)])]),
        id("let"@),
        id("mut"@),
        id("__scene"@),
        pa('='),
    ] + private(seq!["Scene"@, "new"@]) + seq![
        paren(
            private(seq!["Viewport"@, "new"@]) + seq![paren(start_viewport()), pa(',')],
        ),
        pa(';'),
    ]
}

/// The code of a whole statement list: a block that starts a scene, runs
/// the statements on it and yields it.
pub open spec fn expand(t: Toks) -> Res<Toks> {
    match tr_stmts(t, 0) {
        Err(e) => Err(e),
        Ok(body) => Ok(seq![brace(prelude() + body + seq![id("__scene"@)])]),
    }
}

/// The code that `theme light` or `theme dark` becomes.
pub open spec fn theme_code(w: Seq<char>) -> Toks {
    scene_call("theme"@, private(seq!["Theme"@, w]) + seq![paren(seq![])])
}

/// A path of four segments: twelve tokens, the last the last segment.
proof fn lemma_path4(a: Seq<char>, b: Seq<char>, c: Seq<char>, d: Seq<char>)
    ensures
        path(seq![a, b, c, d]).len() == 12,
        path(seq![a, b, c, d])[11] == id(d),
{
    reveal_with_fuel(path, 5);
    let s = seq![a, b, c, d];
    assert(s.drop_first() =~= seq![b, c, d]);
    assert(s.drop_first().drop_first() =~= seq![c, d]);
    assert(s.drop_first().drop_first().drop_first() =~= seq![d]);
    assert(s.drop_first().drop_first().drop_first().drop_first() =~= Seq::<Seq<char>>::empty());
}

/// In the code of `theme w`, token 14 is the argument group, whose token
/// 13 is the theme's name.
proof fn lemma_theme_code_name(w: Seq<char>)
    ensures
        theme_code(w).len() == 16,
        theme_code(w)[14] is Group,
        theme_code(w)[14]->Group_1.len() == 15,
        theme_code(w)[14]->Group_1[13] == id(w),
{
    lemma_path4("dgs"@, "__private"@, "Scene"@, "theme"@);
    lemma_path4("dgs"@, "__private"@, "Theme"@, w);
    assert(seq!["dgs"@, "__private"@] + seq!["Scene"@, "theme"@] =~= seq![
        "dgs"@,
        "__private"@,
        "Scene"@,
        "theme"@,
    ]);
    assert(seq!["dgs"@, "__private"@] + seq!["Theme"@, w] =~= seq!["dgs"@, "__private"@, "Theme"@, w]);
}

/// `theme light` becomes the call that sets `Theme::light()`, `theme dark`
/// the call that sets `Theme::dark()`, each reading one token after
/// `theme`; the two codes differ.
pub proof fn lemma_theme_statement(t: Toks, i: int)
    ensures
        is_word(t, i, "theme"@) && is_word(t, i + 1, "light"@) ==> tr_stmt(t, i) == Res::<(Toks, nat)>::Ok(
            (theme_code("light"@), 1nat),
        ),
        is_word(t, i, "theme"@) && is_word(t, i + 1, "dark"@) ==> tr_stmt(t, i) == Res::<(Toks, nat)>::Ok(
            (theme_code("dark"@), 1nat),
        ),
        theme_code("light"@) != theme_code("dark"@),
        theme_code("light"@) == scene_call(
            "theme"@,
            private(seq!["Theme"@, "light"@]) + seq![paren(seq![])],
        ),
{
    reveal_strlit("theme");
    reveal_strlit("light");
    reveal_strlit("dark");
    reveal_strlit("for");
    reveal_strlit("while");
    reveal_strlit("loop");
    reveal_strlit("if");
    reveal_strlit("viewport");
    lemma_theme_code_name("light"@);
    lemma_theme_code_name("dark"@);
    assert("light"@ != "dark"@) by {
        assert("light"@.len() != "dark"@.len());
    }
    assert(theme_code("light"@)[14]->Group_1[13] != theme_code("dark"@)[14]->Group_1[13]);
    if is_word(t, i, "theme"@) {
        assert("theme"@[0] == 't');
        assert("for"@[0] == 'f');
        assert("while"@[0] == 'w');
        assert("loop"@[0] == 'l');
        assert("if"@[0] == 'i');
        assert("viewport"@[0] == 'v');
        assert(!is_word(t, i, "for"@));
        assert(!is_word(t, i, "while"@));
        assert(!is_word(t, i, "loop"@));
        assert(!is_word(t, i, "if"@));
        assert(!is_punct(t, i, '#'));
        assert(!is_word(t, i, "viewport"@));
        assert(tr_stmt(t, i) == tr_simple(t, i));
        assert(tr_simple(t, i) == tr_theme(t, i));
    }
}

/// The whole program `theme light` (or `theme dark`) becomes the block
/// that starts a scene, sets that theme and yields the scene.
pub proof fn lemma_theme_program(t: Toks, w: Seq<char>)
    requires
        t.len() == 2,
        is_word(t, 0, "theme"@),
        is_word(t, 1, w),
        w == "light"@ || w == "dark"@,
    ensures
        expand(t) == Res::<Toks>::Ok(seq![brace(prelude() + theme_code(w) + seq![id("__scene"@)])]),
{
    lemma_theme_statement(t, 0);
    assert(tr_stmts(t, 2) == Res::<Toks>::Ok(Seq::empty()));
    assert(theme_code(w) + Seq::<TokView>::empty() =~= theme_code(w));
}

} // verus!
