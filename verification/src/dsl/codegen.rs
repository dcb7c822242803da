//! Reading a statement list and writing its code, as `grammar` says.

use vstd::prelude::*;
use crate::text::same_chars;
use super::token::{
    ascii_ident, call_site, clone_tok, clone_toks, lemma_toks_view, lemma_view_concat,
    lemma_view_push, lemma_view_subrange, ident_tok, literal_tok, punct_tok, string_tok, string_value,
    parses_as_expr, parses_as_expr_no_struct, parses_as_pat, parses_as_stmt, punct_char, source_of,
    span_of, syn_expr, syn_expr_no_struct, syn_pat, syn_stmt, tok_view, toks_view, write_source,
    Delim, Tok, TokView,
};
use super::grammar::{
    as_f64, axes_opts, brace, color_call, color_spec, comma_list, expand, f64_pair, grid_opts,
    group_pair, id, inner, is_arrow, is_group, is_name, is_punct, is_str, is_word, kw_expr, left,
    longest, method, more_points, obj, obj_arc, obj_circle, obj_curve, obj_ellipse, obj_line,
    obj_point, obj_polygon, obj_semicircle, object_word, opt_expr, opt_method, opt_scene_call, pa,
    pair, paren, path, point_ref, poly_points, prelude, private, reserved, rust_at, rust_len,
    scene_call, semi_from, semi_opts, start_viewport, str_of, str_value_at, num, style_opts, ten, text_at, tr_axes,
    tr_body, tr_grid, tr_if, tr_push, tr_simple, tr_stmt, tr_stmts, tr_theme, tr_viewport,
    DslErrorKind, Keyword, Res, Syntax, Toks,
};

verus! {

/// A refused statement list: why, and where (the span of the token that
/// was not what the language expected, or the call site at the end).
pub struct DslError {
    pub kind: DslErrorKind,
    pub span: proc_macro2::Span,
    /// The statements, or a group's contents, ended where the token was
    /// expected.
    pub at_end: bool,
    /// The Rust keyword found where an identifier was expected.
    pub keyword: Option<String>,
}

/// The word a keyword is written as.
pub open spec fn keyword_text(k: Keyword) -> Seq<char> {
    match k {
        Keyword::Size => "size"@,
        Keyword::To => "to"@,
        Keyword::Radius => "radius"@,
        Keyword::Rx => "rx"@,
        Keyword::Ry => "ry"@,
        Keyword::From => "from"@,
        Keyword::In => "in"@,
    }
}

/// What an error of kind `k` expected.
pub open spec fn expected_message(k: DslErrorKind) -> Seq<char> {
    match k {
        DslErrorKind::ExpectedStatement => "expected one of: `viewport`, `theme`, `grid`, `axes`, `point`, `line`, `circle`, `ellipse`, `arc`, `semicircle`, `polygon`, `curve`, `curve_param`, `eq`, `eq_param`"@,
        DslErrorKind::ExpectedTheme => "expected `light` or `dark`"@,
        DslErrorKind::ExpectedColor => "expected identifier or string literal"@,
        DslErrorKind::ExpectedIdent => "expected identifier"@,
        DslErrorKind::ExpectedString => "expected string literal"@,
        DslErrorKind::ExpectedExpr => "expected an expression"@,
        DslErrorKind::ExpectedPattern => "expected a pattern"@,
        DslErrorKind::ExpectedRustStmt => "expected a Rust statement"@,
        DslErrorKind::ExpectedKeyword(w) => "expected `"@ + keyword_text(w) + "`"@,
        DslErrorKind::ExpectedComma => "expected `,`"@,
        DslErrorKind::ExpectedArrow => "expected `->`"@,
        DslErrorKind::ExpectedParens => "expected parentheses"@,
        DslErrorKind::ExpectedBrackets => "expected square brackets"@,
        DslErrorKind::ExpectedBraces => "expected curly braces"@,
        DslErrorKind::UnexpectedToken => "unexpected token"@,
        DslErrorKind::TooFewPolygonPoints => "polygon needs at least 3 points"@,
    }
}

/// The message that reports an error of kind `k`: for an identifier that
/// met a Rust keyword, that keyword named; at the end of the statements or
/// of a group, `unexpected end of input, ` first.
pub open spec fn error_message(k: DslErrorKind, at_end: bool, keyword: Option<Seq<char>>) -> Seq<char> {
    let base = match keyword {
        Some(w) => if k == DslErrorKind::ExpectedIdent {
            "expected identifier, found keyword `"@ + w + "`"@
        } else {
            expected_message(k)
        },
        None => expected_message(k),
    };
    if at_end {
        "unexpected end of input, "@ + base
    } else {
        base
    }
}

/// Some text, by its view.
pub open spec fn opt_text(o: Option<String>) -> Option<Seq<char>> {
    match o {
        Some(s) => Some(s@),
        None => None,
    }
}

/// The word a keyword is written as.
fn keyword_str(k: Keyword) -> (s: &'static str)
    ensures
        s@ == keyword_text(k),
{
    match k {
        Keyword::Size => "size",
        Keyword::To => "to",
        Keyword::Radius => "radius",
        Keyword::Rx => "rx",
        Keyword::Ry => "ry",
        Keyword::From => "from",
        Keyword::In => "in",
    }
}

impl DslError {
    /// The message that reports this error.
    pub fn message(&self) -> (m: String)
        ensures
            m@ == error_message(self.kind, self.at_end, opt_text(self.keyword)),
    {
        let base = match &self.keyword {
            Some(w) => if self.kind == DslErrorKind::ExpectedIdent {
                "expected identifier, found keyword `".to_owned().concat(w.as_str()).concat("`")
            } else {
                self.expected()
            },
            None => self.expected(),
        };
        if self.at_end {
            "unexpected end of input, ".to_owned().concat(base.as_str())
        } else {
            base
        }
    }

    /// What this error expected.
    fn expected(&self) -> (m: String)
        ensures
            m@ == expected_message(self.kind),
    {
        match self.kind {
            DslErrorKind::ExpectedStatement => "expected one of: `viewport`, `theme`, `grid`, `axes`, `point`, `line`, `circle`, `ellipse`, `arc`, `semicircle`, `polygon`, `curve`, `curve_param`, `eq`, `eq_param`".to_owned(),
            DslErrorKind::ExpectedTheme => "expected `light` or `dark`".to_owned(),
            DslErrorKind::ExpectedColor => "expected identifier or string literal".to_owned(),
            DslErrorKind::ExpectedIdent => "expected identifier".to_owned(),
            DslErrorKind::ExpectedString => "expected string literal".to_owned(),
            DslErrorKind::ExpectedExpr => "expected an expression".to_owned(),
            DslErrorKind::ExpectedPattern => "expected a pattern".to_owned(),
            DslErrorKind::ExpectedRustStmt => "expected a Rust statement".to_owned(),
            DslErrorKind::ExpectedKeyword(w) => "expected `".to_owned().concat(keyword_str(w)).concat(
                "`",
            ),
            DslErrorKind::ExpectedComma => "expected `,`".to_owned(),
            DslErrorKind::ExpectedArrow => "expected `->`".to_owned(),
            DslErrorKind::ExpectedParens => "expected parentheses".to_owned(),
            DslErrorKind::ExpectedBrackets => "expected square brackets".to_owned(),
            DslErrorKind::ExpectedBraces => "expected curly braces".to_owned(),
            DslErrorKind::UnexpectedToken => "unexpected token".to_owned(),
            DslErrorKind::TooFewPolygonPoints => "polygon needs at least 3 points".to_owned(),
        }
    }
}

proof fn lemma_words_0()
    ensures
        ascii_ident("dgs"@),
        ascii_ident("__private"@),
        ascii_ident("__scene"@),
        ascii_ident("Scene"@),
        ascii_ident("Viewport"@),
        ascii_ident("new"@),
        ascii_ident("viewport"@),
        ascii_ident("theme"@),
        ascii_ident("Theme"@),
        ascii_ident("light"@),
        ascii_ident("dark"@),
        ascii_ident("grid"@),
{
    reveal_strlit("dgs");
    reveal_strlit("__private");
    reveal_strlit("__scene");
    reveal_strlit("Scene");
    reveal_strlit("Viewport");
    reveal_strlit("new");
    reveal_strlit("viewport");
    reveal_strlit("theme");
    reveal_strlit("Theme");
    reveal_strlit("light");
    reveal_strlit("dark");
    reveal_strlit("grid");
}

proof fn lemma_words_1()
    ensures
        ascii_ident("true"@),
        ascii_ident("grid_spacing"@),
        ascii_ident("grid_width"@),
        ascii_ident("grid_color"@),
        ascii_ident("axes"@),
        ascii_ident("axis_width"@),
        ascii_ident("axis_color"@),
        ascii_ident("axis_label_size"@),
        ascii_ident("push"@),
        ascii_ident("color"@),
        ascii_ident("as"@),
        ascii_ident("f64"@),
{
    reveal_strlit("true");
    reveal_strlit("grid_spacing");
    reveal_strlit("grid_width");
    reveal_strlit("grid_color");
    reveal_strlit("axes");
    reveal_strlit("axis_width");
    reveal_strlit("axis_color");
    reveal_strlit("axis_label_size");
    reveal_strlit("push");
    reveal_strlit("color");
    reveal_strlit("as");
    reveal_strlit("f64");
}

proof fn lemma_words_2()
    ensures
        ascii_ident("with_color"@),
        ascii_ident("with_stroke"@),
        ascii_ident("with_fill"@),
        ascii_ident("for"@),
        ascii_ident("in"@),
        ascii_ident("while"@),
        ascii_ident("loop"@),
        ascii_ident("if"@),
        ascii_ident("else"@),
        ascii_ident("point"@),
        ascii_ident("point_at"@),
        ascii_ident("with_size"@),
{
    reveal_strlit("with_color");
    reveal_strlit("with_stroke");
    reveal_strlit("with_fill");
    reveal_strlit("for");
    reveal_strlit("in");
    reveal_strlit("while");
    reveal_strlit("loop");
    reveal_strlit("if");
    reveal_strlit("else");
    reveal_strlit("point");
    reveal_strlit("point_at");
    reveal_strlit("with_size");
}

proof fn lemma_words_3()
    ensures
        ascii_ident("line"@),
        ascii_ident("circle"@),
        ascii_ident("ellipse"@),
        ascii_ident("with_rotation"@),
        ascii_ident("arc"@),
        ascii_ident("semicircle"@),
        ascii_ident("with_dir"@),
        ascii_ident("with_center"@),
        ascii_ident("SemicircleDir"@),
        ascii_ident("Clockwise"@),
        ascii_ident("CounterClockwise"@),
        ascii_ident("polygon"@),
{
    reveal_strlit("line");
    reveal_strlit("circle");
    reveal_strlit("ellipse");
    reveal_strlit("with_rotation");
    reveal_strlit("arc");
    reveal_strlit("semicircle");
    reveal_strlit("with_dir");
    reveal_strlit("with_center");
    reveal_strlit("SemicircleDir");
    reveal_strlit("Clockwise");
    reveal_strlit("CounterClockwise");
    reveal_strlit("polygon");
}

proof fn lemma_words_4()
    ensures
        ascii_ident("vec"@),
        ascii_ident("eq"@),
        ascii_ident("eq_param"@),
        ascii_ident("with_var"@),
        ascii_ident("with_range"@),
        ascii_ident("PointRef"@),
        ascii_ident("named"@),
        ascii_ident("at"@),
        ascii_ident("let"@),
        ascii_ident("mut"@),
        ascii_ident("allow"@),
        ascii_ident("unused_mut"@),
{
    reveal_strlit("vec");
    reveal_strlit("eq");
    reveal_strlit("eq_param");
    reveal_strlit("with_var");
    reveal_strlit("with_range");
    reveal_strlit("PointRef");
    reveal_strlit("named");
    reveal_strlit("at");
    reveal_strlit("let");
    reveal_strlit("mut");
    reveal_strlit("allow");
    reveal_strlit("unused_mut");
}

/// Every word that the generated code names is an identifier that
/// `proc_macro2` accepts.
proof fn lemma_words()
    ensures
        ascii_ident("dgs"@),
        ascii_ident("__private"@),
        ascii_ident("__scene"@),
        ascii_ident("Scene"@),
        ascii_ident("Viewport"@),
        ascii_ident("new"@),
        ascii_ident("viewport"@),
        ascii_ident("theme"@),
        ascii_ident("Theme"@),
        ascii_ident("light"@),
        ascii_ident("dark"@),
        ascii_ident("grid"@),
        ascii_ident("true"@),
        ascii_ident("grid_spacing"@),
        ascii_ident("grid_width"@),
        ascii_ident("grid_color"@),
        ascii_ident("axes"@),
        ascii_ident("axis_width"@),
        ascii_ident("axis_color"@),
        ascii_ident("axis_label_size"@),
        ascii_ident("push"@),
        ascii_ident("color"@),
        ascii_ident("as"@),
        ascii_ident("f64"@),
        ascii_ident("with_color"@),
        ascii_ident("with_stroke"@),
        ascii_ident("with_fill"@),
        ascii_ident("for"@),
        ascii_ident("in"@),
        ascii_ident("while"@),
        ascii_ident("loop"@),
        ascii_ident("if"@),
        ascii_ident("else"@),
        ascii_ident("point"@),
        ascii_ident("point_at"@),
        ascii_ident("with_size"@),
        ascii_ident("line"@),
        ascii_ident("circle"@),
        ascii_ident("ellipse"@),
        ascii_ident("with_rotation"@),
        ascii_ident("arc"@),
        ascii_ident("semicircle"@),
        ascii_ident("with_dir"@),
        ascii_ident("with_center"@),
        ascii_ident("SemicircleDir"@),
        ascii_ident("Clockwise"@),
        ascii_ident("CounterClockwise"@),
        ascii_ident("polygon"@),
        ascii_ident("vec"@),
        ascii_ident("eq"@),
        ascii_ident("eq_param"@),
        ascii_ident("with_var"@),
        ascii_ident("with_range"@),
        ascii_ident("PointRef"@),
        ascii_ident("named"@),
        ascii_ident("at"@),
        ascii_ident("let"@),
        ascii_ident("mut"@),
        ascii_ident("allow"@),
        ascii_ident("unused_mut"@),
{
    lemma_words_0();
    lemma_words_1();
    lemma_words_2();
    lemma_words_3();
    lemma_words_4();
}

/// The error `kind` at token `i` (the call site past the end).
fn err_at(t: &Vec<Tok>, i: usize, kind: DslErrorKind) -> (e: DslError)
    ensures
        e.kind == kind,
        e.at_end == (i >= t@.len()),
        opt_text(e.keyword) == (if kind == DslErrorKind::ExpectedIdent && i < t@.len() && toks_view(
            t@,
        )[i as int] is Ident && reserved(toks_view(t@)[i as int]->Ident_0) {
            Some(toks_view(t@)[i as int]->Ident_0)
        } else {
            None
        }),
{
    proof {
        lemma_toks_view(t@);
    }
    if i < t.len() {
        let keyword = match &t[i] {
            Tok::Ident(w, _) => if kind == DslErrorKind::ExpectedIdent && reserved_word(w.as_str()) {
                Some(w.clone())
            } else {
                None
            },
            _ => None,
        };
        DslError { kind, span: span_of(&t[i]), at_end: false, keyword }
    } else {
        DslError { kind, span: call_site(), at_end: true, keyword: None }
    }
}

/// Token `i` is the word `w`.
fn word_at(t: &Vec<Tok>, i: usize, w: &str) -> (r: bool)
    ensures
        r == is_word(toks_view(t@), i as int, w@),
{
    proof {
        lemma_toks_view(t@);
    }
    if i < t.len() {
        match &t[i] {
            Tok::Ident(s, _) => same_chars(s.as_str(), w),
            _ => false,
        }
    } else {
        false
    }
}

/// `w` is reserved.
fn reserved_word(w: &str) -> (r: bool)
    ensures
        r == reserved(w@),
{
    same_chars(w, "_") || same_chars(w, "abstract") || same_chars(w, "as") || same_chars(w, "async")
        || same_chars(w, "await") || same_chars(w, "become") || same_chars(w, "box") || same_chars(
        w,
        "break",
    ) || same_chars(w, "const") || same_chars(w, "continue") || same_chars(w, "crate")
        || same_chars(w, "do") || same_chars(w, "dyn") || same_chars(w, "else") || same_chars(
        w,
        "enum",
    ) || same_chars(w, "extern") || same_chars(w, "false") || same_chars(w, "final") || same_chars(
        w,
        "fn",
    ) || same_chars(w, "for") || same_chars(w, "if") || same_chars(w, "impl") || same_chars(
        w,
        "in",
    ) || same_chars(w, "let") || same_chars(w, "loop") || same_chars(w, "macro") || same_chars(
        w,
        "match",
    ) || same_chars(w, "mod") || same_chars(w, "move") || same_chars(w, "mut") || same_chars(
        w,
        "override",
    ) || same_chars(w, "priv") || same_chars(w, "pub") || same_chars(w, "ref") || same_chars(
        w,
        "return",
    ) || same_chars(w, "Self") || same_chars(w, "self") || same_chars(w, "static") || same_chars(
        w,
        "struct",
    ) || same_chars(w, "super") || same_chars(w, "trait") || same_chars(w, "true") || same_chars(
        w,
        "try",
    ) || same_chars(w, "type") || same_chars(w, "typeof") || same_chars(w, "unsafe") || same_chars(
        w,
        "unsized",
    ) || same_chars(w, "use") || same_chars(w, "virtual") || same_chars(w, "where") || same_chars(
        w,
        "while",
    ) || same_chars(w, "yield")
}

/// Token `i` is an identifier that is not reserved.
fn name_at(t: &Vec<Tok>, i: usize) -> (r: bool)
    ensures
        r == is_name(toks_view(t@), i as int),
{
    proof {
        lemma_toks_view(t@);
    }
    if i < t.len() {
        match &t[i] {
            Tok::Ident(s, _) => !reserved_word(s.as_str()),
            _ => false,
        }
    } else {
        false
    }
}

/// Token `i` is the punctuation `c`.
fn punct_at(t: &Vec<Tok>, i: usize, c: char) -> (r: bool)
    ensures
        r == is_punct(toks_view(t@), i as int, c),
{
    proof {
        lemma_toks_view(t@);
    }
    if i < t.len() {
        match &t[i] {
            Tok::Punct(d, _, _) => *d == c,
            _ => false,
        }
    } else {
        false
    }
}

/// Tokens `i`, `i + 1` are `->`.
fn arrow_at(t: &Vec<Tok>, i: usize) -> (r: bool)
    ensures
        r == is_arrow(toks_view(t@), i as int),
{
    proof {
        lemma_toks_view(t@);
    }
    assert(t@.len() == t.len());
    if punct_at(t, i, '-') && punct_at(t, i + 1, '>') {
        match &t[i] {
            Tok::Punct(_, joint, _) => *joint,
            _ => false,
        }
    } else {
        false
    }
}

/// Token `i` is a group delimited by `d`.
fn group_at(t: &Vec<Tok>, i: usize, d: Delim) -> (r: bool)
    ensures
        r == is_group(toks_view(t@), i as int, d),
{
    proof {
        lemma_toks_view(t@);
    }
    if i < t.len() {
        match &t[i] {
            Tok::Group(e, _, _) => *e == d,
            _ => false,
        }
    } else {
        false
    }
}

/// The contents of group token `i`.
fn inner_at(t: &Vec<Tok>, i: usize) -> (g: &Vec<Tok>)
    requires
        i < t@.len(),
        toks_view(t@)[i as int] is Group,
    ensures
        toks_view(g@) == inner(toks_view(t@), i as int),
{
    proof {
        lemma_toks_view(t@);
    }
    if let Tok::Group(_, g, _) = &t[i] {
        g
    } else {
        t
    }
}


/// Token `i` is a literal that `syn` reads as a string literal.
fn str_at(t: &Vec<Tok>, i: usize) -> (r: bool)
    ensures
        r == is_str(toks_view(t@), i as int),
{
    proof {
        lemma_toks_view(t@);
    }
    if i < t.len() {
        match &t[i] {
            Tok::Lit(s, _) => string_value(s.as_str()).is_some(),
            _ => false,
        }
    } else {
        false
    }
}

/// Append `x` to `out`.
fn emit(out: &mut Vec<Tok>, x: Tok)
    ensures
        toks_view(final(out)@) == toks_view(old(out)@).push(tok_view(x)),
{
    proof {
        lemma_view_push(old(out)@, x);
    }
    out.push(x);
}

/// Append the tokens of `piece` to `out`.
fn emit_all(out: &mut Vec<Tok>, piece: Vec<Tok>)
    ensures
        toks_view(final(out)@) == toks_view(old(out)@) + toks_view(piece@),
{
    let mut piece = piece;
    proof {
        lemma_view_concat(old(out)@, piece@);
    }
    out.append(&mut piece);
}


/// Append the identifier `w`.
fn emit_id(out: &mut Vec<Tok>, w: &str)
    requires
        ascii_ident(w@),
    ensures
        toks_view(final(out)@) == toks_view(old(out)@).push(id(w@)),
{
    emit(out, ident_tok(w));
}

/// Append the punctuation `c`, not joined to what follows.
fn emit_pa(out: &mut Vec<Tok>, c: char)
    requires
        punct_char(c),
    ensures
        toks_view(final(out)@) == toks_view(old(out)@).push(pa(c)),
{
    emit(out, punct_tok(c, false));
}

/// Append `::`.
fn emit_colons(out: &mut Vec<Tok>)
    ensures
        toks_view(final(out)@) == toks_view(old(out)@) + seq![TokView::Punct(':', true), pa(':')],
{
    emit(out, punct_tok(':', true));
    emit(out, punct_tok(':', false));
    assert(toks_view(out@) =~= toks_view(old(out)@) + seq![TokView::Punct(':', true), pa(':')]);
}

/// Append a group delimited by `d` around `g`.
fn emit_group(out: &mut Vec<Tok>, d: Delim, g: Vec<Tok>)
    ensures
        toks_view(final(out)@) == toks_view(old(out)@).push(TokView::Group(d, toks_view(g@))),
{
    emit(out, Tok::Group(d, g, call_site()));
}

/// Append a string literal with the value `w` (an identifier's name).
fn emit_str_of(out: &mut Vec<Tok>, w: &str)
    ensures
        toks_view(final(out)@) == toks_view(old(out)@).push(str_of(w@)),
{
    emit(out, string_tok(w));
}

/// Append the number literal written `text`.
fn emit_num(out: &mut Vec<Tok>, text: &str)
    ensures
        toks_view(final(out)@) == toks_view(old(out)@).push(num(text@)),
{
    match literal_tok(text) {
        Some(l) => emit(out, l),
        None => emit(out, string_tok(text)),
    }
}

/// Append copies of `t[lo..hi]`.
fn emit_range(out: &mut Vec<Tok>, t: &Vec<Tok>, lo: usize, hi: usize)
    requires
        lo <= hi <= t@.len(),
    ensures
        toks_view(final(out)@) == toks_view(old(out)@) + toks_view(t@).subrange(lo as int, hi as int),
{
    proof {
        lemma_toks_view(t@);
    }
    let mut k = lo;
    while k < hi
        invariant
            lo <= k <= hi <= t@.len(),
            toks_view(out@) == toks_view(old(out)@) + toks_view(t@).subrange(lo as int, k as int),
        decreases hi - k,
    {
        let c = clone_tok(&t[k]);
        emit(out, c);
        k = k + 1;
        proof {
            lemma_toks_view(t@);
            assert(toks_view(t@).subrange(lo as int, k as int) =~= toks_view(t@).subrange(
                lo as int,
                k - 1,
            ).push(tok_view(t@[k - 1])));
        }
    }
}

/// Append `::dgs::__private::a`.
fn emit_private1(out: &mut Vec<Tok>, a: &str)
    requires
        ascii_ident(a@),
    ensures
        toks_view(final(out)@) == toks_view(old(out)@) + private(seq![a@]),
{
    proof {
        lemma_words();
    }
    emit_colons(out);
    emit_id(out, "dgs");
    emit_colons(out);
    emit_id(out, "__private");
    emit_colons(out);
    emit_id(out, a);
    proof {
        reveal_with_fuel(path, 4);
        let segs = seq!["dgs"@, "__private"@] + seq![a@];
        assert(segs.drop_first() =~= seq!["__private"@, a@]);
        assert(segs.drop_first().drop_first() =~= seq![a@]);
        assert(segs.drop_first().drop_first().drop_first() =~= Seq::<Seq<char>>::empty());
        assert(toks_view(out@) =~= toks_view(old(out)@) + private(seq![a@]));
    }
}

/// Append `::dgs::__private::a::b`.
fn emit_private2(out: &mut Vec<Tok>, a: &str, b: &str)
    requires
        ascii_ident(a@),
        ascii_ident(b@),
    ensures
        toks_view(final(out)@) == toks_view(old(out)@) + private(seq![a@, b@]),
{
    proof {
        lemma_words();
    }
    emit_colons(out);
    emit_id(out, "dgs");
    emit_colons(out);
    emit_id(out, "__private");
    emit_colons(out);
    emit_id(out, a);
    emit_colons(out);
    emit_id(out, b);
    proof {
        reveal_with_fuel(path, 5);
        let segs = seq!["dgs"@, "__private"@] + seq![a@, b@];
        assert(segs.drop_first() =~= seq!["__private"@, a@, b@]);
        assert(segs.drop_first().drop_first() =~= seq![a@, b@]);
        assert(segs.drop_first().drop_first().drop_first() =~= seq![b@]);
        assert(segs.drop_first().drop_first().drop_first().drop_first() =~= Seq::<
            Seq<char>,
        >::empty());
        assert(toks_view(out@) =~= toks_view(old(out)@) + private(seq![a@, b@]));
    }
}

// ---------------------------------------------------------------------------
// Runs of Rust syntax.
// ---------------------------------------------------------------------------

/// A count, as a number.
pub open spec fn nat_of(r: Option<usize>) -> Option<nat> {
    match r {
        Some(n) => Some(n as nat),
        None => None,
    }
}

/// Whether `syn` accepts the source text `src` as a whole `k`.
fn parses(k: Syntax, src: &Vec<char>) -> (r: bool)
    ensures
        r == match k {
            Syntax::Expr => syn_expr(src@),
            Syntax::ExprNoStruct => syn_expr_no_struct(src@),
            Syntax::Pat => syn_pat(src@),
            Syntax::Stmt => syn_stmt(src@),
        },
{
    match k {
        Syntax::Expr => parses_as_expr(src),
        Syntax::ExprNoStruct => parses_as_expr_no_struct(src),
        Syntax::Pat => parses_as_pat(src),
        Syntax::Stmt => parses_as_stmt(src),
    }
}

/// The position of the first `;` at or after `i` (the length if none).
fn semi_pos(t: &Vec<Tok>, i: usize) -> (r: usize)
    ensures
        r == semi_from(toks_view(t@), i as int),
{
    proof {
        lemma_toks_view(t@);
    }
    let mut k = i;
    while k < t.len() && !punct_at(t, k, ';')
        invariant
            i <= k,
            toks_view(t@).len() == t@.len(),
            semi_from(toks_view(t@), i as int) == semi_from(toks_view(t@), k as int),
        decreases t@.len() - k,
    {
        k = k + 1;
    }
    if k < t.len() {
        k
    } else {
        t.len()
    }
}

/// The largest `m` in `1..=n` for which `syn` accepts `t[i..i + m]` as a
/// `k`.
fn longest_run(k: Syntax, t: &Vec<Tok>, i: usize, n: usize) -> (r: Option<usize>)
    requires
        i + n <= t@.len(),
    ensures
        r matches Some(m) ==> 1 <= m <= n,
        nat_of(r) == longest(k, toks_view(t@), i as int, n as nat),
{
    let mut m = n;
    while m > 0
        invariant
            m <= n,
            i + n <= t.len(),
            longest(k, toks_view(t@), i as int, n as nat) == longest(
                k,
                toks_view(t@),
                i as int,
                m as nat,
            ),
        decreases m,
    {
        let mut src: Vec<char> = Vec::new();
        write_source(&mut src, t, i, i + m);
        assert(src@ =~= source_of(toks_view(t@).subrange(i as int, i + m)));
        if parses(k, &src) {
            return Some(m);
        }
        m = m - 1;
    }
    None
}

/// How many tokens from `i` on form the `k` that starts there.
fn rust_len_at(k: Syntax, t: &Vec<Tok>, i: usize) -> (r: Option<usize>)
    ensures
        r matches Some(m) ==> 1 <= m && i + m <= t.len(),
        nat_of(r) == rust_len(k, toks_view(t@), i as int),
{
    proof {
        lemma_toks_view(t@);
    }
    let s = semi_pos(t, i);
    let lim = if k == Syntax::Stmt && s < t.len() {
        s + 1
    } else {
        s
    };
    if i < lim && lim <= t.len() {
        longest_run(k, t, i, lim - i)
    } else {
        None
    }
}

/// The count of the `k` that starts at `i`, or the error `e` there.
fn rust_at_exec(k: Syntax, t: &Vec<Tok>, i: usize, e: DslErrorKind) -> (r: Result<usize, DslError>)
    ensures
        r matches Ok(n) ==> 1 <= n && i + n <= t.len(),
        match (r, rust_at(k, toks_view(t@), i as int, e)) {
            (Ok(n), Ok(m)) => n == m,
            (Err(x), Err(y)) => x.kind == y,
            _ => false,
        },
{
    match rust_len_at(k, t, i) {
        Some(n) => Ok(n),
        None => Err(err_at(t, i, e)),
    }
}

// ---------------------------------------------------------------------------
// Results, as the grammar states them.
// ---------------------------------------------------------------------------

/// `r` gives the code `s` gives, or an error of the same kind.
pub open spec fn agrees_code(r: Result<Vec<Tok>, DslError>, s: Res<Toks>) -> bool {
    match (r, s) {
        (Ok(v), Ok(c)) => toks_view(v@) == c,
        (Err(x), Err(y)) => x.kind == y,
        _ => false,
    }
}

/// `r` gives the code and count `s` gives, or an error of the same kind.
pub open spec fn agrees_read(r: Result<(Vec<Tok>, usize), DslError>, s: Res<(Toks, nat)>) -> bool {
    match (r, s) {
        (Ok((v, n)), Ok((c, m))) => toks_view(v@) == c && n == m,
        (Err(x), Err(y)) => x.kind == y,
        _ => false,
    }
}

/// `r` gives the two runs `s` gives, or an error of the same kind.
pub open spec fn agrees_pair(r: Result<(Vec<Tok>, Vec<Tok>), DslError>, s: Res<(Toks, Toks)>) -> bool {
    match (r, s) {
        (Ok((a, b)), Ok((x, y))) => toks_view(a@) == x && toks_view(b@) == y,
        (Err(x), Err(y)) => x.kind == y,
        _ => false,
    }
}

/// Some code, by its view.
pub open spec fn opt_view(o: Option<Vec<Tok>>) -> Option<Toks> {
    match o {
        Some(v) => Some(toks_view(v@)),
        None => None,
    }
}

/// The value of string literal token `i`.
fn str_value_of(t: &Vec<Tok>, i: usize) -> (v: String)
    requires
        is_str(toks_view(t@), i as int),
    ensures
        v@ == str_value_at(toks_view(t@), i as int),
{
    proof {
        lemma_toks_view(t@);
    }
    match &t[i] {
        Tok::Lit(s, _) => match string_value(s.as_str()) {
            Some(v) => v,
            None => String::new(),
        },
        _ => String::new(),
    }
}

/// The name of identifier token `i` (empty for other tokens).
fn text_of(t: &Vec<Tok>, i: usize) -> (s: &str)
    requires
        i < t@.len(),
    ensures
        s@ == text_at(toks_view(t@), i as int),
{
    proof {
        lemma_toks_view(t@);
        reveal_strlit("");
    }
    match &t[i] {
        Tok::Ident(s, _) => s.as_str(),
        _ => "",
    }
}

// ---------------------------------------------------------------------------
// Writing code.
// ---------------------------------------------------------------------------

/// `e as f64`.
fn emit_as_f64(out: &mut Vec<Tok>, e: Vec<Tok>)
    ensures
        toks_view(final(out)@) == toks_view(old(out)@) + as_f64(toks_view(e@)),
{
    proof {
        lemma_words();
    }
    let ghost e_view = toks_view(e@);
    emit_all(out, e);
    emit_id(out, "as");
    emit_id(out, "f64");
    assert(toks_view(out@) =~= toks_view(old(out)@) + as_f64(e_view));
}

/// `a as f64, b as f64`.
fn emit_f64_pair(out: &mut Vec<Tok>, a: Vec<Tok>, b: Vec<Tok>)
    ensures
        toks_view(final(out)@) == toks_view(old(out)@) + f64_pair(toks_view(a@), toks_view(b@)),
{
    let ghost av = toks_view(a@);
    let ghost bv = toks_view(b@);
    emit_as_f64(out, a);
    emit_pa(out, ',');
    emit_as_f64(out, b);
    assert(toks_view(out@) =~= toks_view(old(out)@) + f64_pair(av, bv));
}

/// `::dgs::__private::color(lit)` for the string literal `lit`.
fn emit_color_call(out: &mut Vec<Tok>, lit: Tok)
    ensures
        toks_view(final(out)@) == toks_view(old(out)@) + color_call(tok_view(lit)),
{
    proof {
        lemma_words();
    }
    let ghost lv = tok_view(lit);
    emit_private1(out, "color");
    let mut g: Vec<Tok> = Vec::new();
    emit(&mut g, lit);
    emit_group(out, Delim::Paren, g);
    assert(toks_view(out@) =~= toks_view(old(out)@) + color_call(lv));
}

// ---------------------------------------------------------------------------
// Reading pairs, points and colors.
// ---------------------------------------------------------------------------

/// An expression, `,`, and an expression that fill `g`.
fn read_pair(g: &Vec<Tok>) -> (r: Result<(Vec<Tok>, Vec<Tok>), DslError>)
    ensures
        agrees_pair(r, pair(toks_view(g@))),
{
    proof {
        lemma_toks_view(g@);
    }
    assert(g@.len() == g.len());
    match rust_len_at(Syntax::Expr, g, 0) {
        None => Err(err_at(g, 0, DslErrorKind::ExpectedExpr)),
        Some(n) => if !punct_at(g, n, ',') {
            Err(err_at(g, n, DslErrorKind::ExpectedComma))
        } else {
            match rust_len_at(Syntax::Expr, g, n + 1) {
                None => Err(err_at(g, n + 1, DslErrorKind::ExpectedExpr)),
                Some(m) => if n + 1 + m == g.len() {
                    let a = clone_toks(g, 0, n);
                    let b = clone_toks(g, n + 1, n + 1 + m);
                    proof {
                        lemma_view_subrange(g@, 0, n as int);
                        lemma_view_subrange(g@, n + 1, n + 1 + m);
                    }
                    Ok((a, b))
                } else {
                    Err(err_at(g, n + 1 + m, DslErrorKind::UnexpectedToken))
                },
            }
        },
    }
}

/// The pair in group token `i`, delimited by `d`.
fn read_group_pair(t: &Vec<Tok>, i: usize, d: Delim) -> (r: Result<(Vec<Tok>, Vec<Tok>), DslError>)
    ensures
        agrees_pair(r, group_pair(toks_view(t@), i as int, d)),
{
    proof {
        lemma_toks_view(t@);
    }
    if group_at(t, i, d) {
        read_pair(inner_at(t, i))
    } else if d == Delim::Paren {
        Err(err_at(t, i, DslErrorKind::ExpectedParens))
    } else {
        Err(err_at(t, i, DslErrorKind::ExpectedBrackets))
    }
}

/// The code of the point reference at token `i`.
fn read_point_ref(t: &Vec<Tok>, i: usize) -> (r: Result<Vec<Tok>, DslError>)
    ensures
        agrees_code(r, point_ref(toks_view(t@), i as int)),
{
    proof {
        lemma_words();
        lemma_toks_view(t@);
    }
    if group_at(t, i, Delim::Paren) {
        match read_pair(inner_at(t, i)) {
            Err(e) => Err(e),
            Ok((x, y)) => {
                let ghost xv = toks_view(x@);
                let ghost yv = toks_view(y@);
                let mut out: Vec<Tok> = Vec::new();
                emit_private2(&mut out, "PointRef", "at");
                let mut g: Vec<Tok> = Vec::new();
                emit_f64_pair(&mut g, x, y);
                emit_group(&mut out, Delim::Paren, g);
                assert(toks_view(out@) =~= private(seq!["PointRef"@, "at"@]) + seq![
                    paren(f64_pair(xv, yv)),
                ]);
                Ok(out)
            },
        }
    } else if name_at(t, i) {
        let w = text_of(t, i);
        let mut out: Vec<Tok> = Vec::new();
        emit_private2(&mut out, "PointRef", "named");
        let mut g: Vec<Tok> = Vec::new();
        emit_str_of(&mut g, w);
        emit_group(&mut out, Delim::Paren, g);
        assert(toks_view(out@) =~= private(seq!["PointRef"@, "named"@]) + seq![
            paren(seq![str_of(w@)]),
        ]);
        Ok(out)
    } else {
        Err(err_at(t, i, DslErrorKind::ExpectedIdent))
    }
}

/// The code of the color at token `i`.
fn read_color(t: &Vec<Tok>, i: usize) -> (r: Result<Vec<Tok>, DslError>)
    ensures
        agrees_code(r, color_spec(toks_view(t@), i as int)),
{
    proof {
        lemma_toks_view(t@);
    }
    if name_at(t, i) {
        let w = text_of(t, i);
        let mut out: Vec<Tok> = Vec::new();
        emit_color_call(&mut out, string_tok(w));
        assert(toks_view(out@) =~= color_call(str_of(w@)));
        Ok(out)
    } else if str_at(t, i) {
        let mut out: Vec<Tok> = Vec::new();
        emit_color_call(&mut out, string_tok(str_value_of(t, i).as_str()));
        assert(toks_view(out@) =~= color_call(str_of(str_value_at(toks_view(t@), i as int))));
        Ok(out)
    } else {
        Err(err_at(t, i, DslErrorKind::ExpectedColor))
    }
}

// ---------------------------------------------------------------------------
// Reading settings.
// ---------------------------------------------------------------------------

/// Three optional pieces of code and a count.
pub type Opts = (Option<Vec<Tok>>, Option<Vec<Tok>>, Option<Vec<Tok>>, usize);

/// `r` gives the settings and count `s` gives, or an error of the same
/// kind.
pub open spec fn agrees_opts(
    r: Result<Opts, DslError>,
    s: Res<(Option<Toks>, Option<Toks>, Option<Toks>, nat)>,
) -> bool {
    match (r, s) {
        (Ok((a, b, c, n)), Ok((x, y, z, m))) => opt_view(a) == x && opt_view(b) == y && opt_view(c)
            == z && n == m,
        (Err(e), Err(k)) => e.kind == k,
        _ => false,
    }
}

/// The tokens `t[lo..hi]` followed by `as f64`.
fn f64_of_range(t: &Vec<Tok>, lo: usize, hi: usize) -> (v: Vec<Tok>)
    requires
        lo <= hi <= t@.len(),
    ensures
        toks_view(v@) == as_f64(toks_view(t@).subrange(lo as int, hi as int)),
{
    let e = clone_toks(t, lo, hi);
    proof {
        lemma_view_subrange(t@, lo as int, hi as int);
    }
    let mut v: Vec<Tok> = Vec::new();
    emit_as_f64(&mut v, e);
    assert(toks_view(v@) =~= as_f64(toks_view(t@).subrange(lo as int, hi as int)));
    v
}

/// The settings after `grid`, from `j` on.
fn read_grid_opts(
    t: &Vec<Tok>,
    j: usize,
    sp: Option<Vec<Tok>>,
    w: Option<Vec<Tok>>,
    c: Option<Vec<Tok>>,
) -> (r: Result<Opts, DslError>)
    requires
        j <= t@.len(),
    ensures
        agrees_opts(r, grid_opts(toks_view(t@), j as int, opt_view(sp), opt_view(w), opt_view(c))),
        r matches Ok((_, _, _, m)) ==> j + m <= t.len(),
    decreases t@.len() - j,
{
    proof {
        lemma_toks_view(t@);
    }
    assert(t@.len() == t.len());
    if word_at(t, j, "spacing") {
        match rust_at_exec(Syntax::Expr, t, j + 1, DslErrorKind::ExpectedExpr) {
            Err(e) => Err(e),
            Ok(n) => {
                let v = f64_of_range(t, j + 1, j + 1 + n);
                match read_grid_opts(t, j + 1 + n, Some(v), w, c) {
                    Err(e) => Err(e),
                    Ok((a, b, d, m)) => Ok((a, b, d, 1 + n + m)),
                }
            },
        }
    } else if word_at(t, j, "width") {
        match rust_at_exec(Syntax::Expr, t, j + 1, DslErrorKind::ExpectedExpr) {
            Err(e) => Err(e),
            Ok(n) => {
                let v = f64_of_range(t, j + 1, j + 1 + n);
                match read_grid_opts(t, j + 1 + n, sp, Some(v), c) {
                    Err(e) => Err(e),
                    Ok((a, b, d, m)) => Ok((a, b, d, 1 + n + m)),
                }
            },
        }
    } else if word_at(t, j, "color") {
        match read_color(t, j + 1) {
            Err(e) => Err(e),
            Ok(cc) => match read_grid_opts(t, j + 2, sp, w, Some(cc)) {
                Err(e) => Err(e),
                Ok((a, b, d, m)) => Ok((a, b, d, 2 + m)),
            },
        }
    } else {
        Ok((sp, w, c, 0))
    }
}

/// The settings after `axes`, from `j` on.
fn read_axes_opts(
    t: &Vec<Tok>,
    j: usize,
    w: Option<Vec<Tok>>,
    c: Option<Vec<Tok>>,
    ls: Option<Vec<Tok>>,
) -> (r: Result<Opts, DslError>)
    requires
        j <= t@.len(),
    ensures
        agrees_opts(r, axes_opts(toks_view(t@), j as int, opt_view(w), opt_view(c), opt_view(ls))),
        r matches Ok((_, _, _, m)) ==> j + m <= t.len(),
    decreases t@.len() - j,
{
    proof {
        lemma_toks_view(t@);
    }
    assert(t@.len() == t.len());
    if word_at(t, j, "width") {
        match rust_at_exec(Syntax::Expr, t, j + 1, DslErrorKind::ExpectedExpr) {
            Err(e) => Err(e),
            Ok(n) => {
                let v = f64_of_range(t, j + 1, j + 1 + n);
                match read_axes_opts(t, j + 1 + n, Some(v), c, ls) {
                    Err(e) => Err(e),
                    Ok((a, b, d, m)) => Ok((a, b, d, 1 + n + m)),
                }
            },
        }
    } else if word_at(t, j, "color") {
        match read_color(t, j + 1) {
            Err(e) => Err(e),
            Ok(cc) => match read_axes_opts(t, j + 2, w, Some(cc), ls) {
                Err(e) => Err(e),
                Ok((a, b, d, m)) => Ok((a, b, d, 2 + m)),
            },
        }
    } else if word_at(t, j, "label_size") {
        match rust_at_exec(Syntax::Expr, t, j + 1, DslErrorKind::ExpectedExpr) {
            Err(e) => Err(e),
            Ok(n) => {
                let v = f64_of_range(t, j + 1, j + 1 + n);
                match read_axes_opts(t, j + 1 + n, w, c, Some(v)) {
                    Err(e) => Err(e),
                    Ok((a, b, d, m)) => Ok((a, b, d, 1 + n + m)),
                }
            },
        }
    } else {
        Ok((w, c, ls, 0))
    }
}

/// The styles after an object, from `j` on.
fn read_style_opts(
    t: &Vec<Tok>,
    j: usize,
    c: Option<Vec<Tok>>,
    st: Option<Vec<Tok>>,
    f: Option<Vec<Tok>>,
) -> (r: Result<Opts, DslError>)
    requires
        j <= t@.len(),
    ensures
        agrees_opts(r, style_opts(toks_view(t@), j as int, opt_view(c), opt_view(st), opt_view(f))),
        r matches Ok((_, _, _, m)) ==> j + m <= t.len(),
    decreases t@.len() - j,
{
    proof {
        lemma_toks_view(t@);
    }
    assert(t@.len() == t.len());
    if word_at(t, j, "color") {
        match read_color(t, j + 1) {
            Err(e) => Err(e),
            Ok(cc) => match read_style_opts(t, j + 2, Some(cc), st, f) {
                Err(e) => Err(e),
                Ok((a, b, d, m)) => Ok((a, b, d, 2 + m)),
            },
        }
    } else if word_at(t, j, "stroke") {
        match rust_at_exec(Syntax::Expr, t, j + 1, DslErrorKind::ExpectedExpr) {
            Err(e) => Err(e),
            Ok(n) => {
                let v = f64_of_range(t, j + 1, j + 1 + n);
                match read_style_opts(t, j + 1 + n, c, Some(v), f) {
                    Err(e) => Err(e),
                    Ok((a, b, d, m)) => Ok((a, b, d, 1 + n + m)),
                }
            },
        }
    } else if word_at(t, j, "fill") {
        match read_color(t, j + 1) {
            Err(e) => Err(e),
            Ok(cc) => match read_style_opts(t, j + 2, c, st, Some(cc)) {
                Err(e) => Err(e),
                Ok((a, b, d, m)) => Ok((a, b, d, 2 + m)),
            },
        }
    } else {
        Ok((c, st, f, 0))
    }
}

/// `r` gives the direction, center and count `s` gives, or an error of
/// the same kind.
pub open spec fn agrees_semi(
    r: Result<(bool, Option<Vec<Tok>>, usize), DslError>,
    s: Res<(bool, Option<Toks>, nat)>,
) -> bool {
    match (r, s) {
        (Ok((a, b, n)), Ok((x, y, m))) => a == x && opt_view(b) == y && n == m,
        (Err(e), Err(k)) => e.kind == k,
        _ => false,
    }
}

/// The options after a semicircle's ends, from `j` on.
fn read_semi_opts(t: &Vec<Tok>, j: usize, cw: bool, center: Option<Vec<Tok>>) -> (r: Result<
    (bool, Option<Vec<Tok>>, usize),
    DslError,
>)
    requires
        j <= t@.len(),
    ensures
        agrees_semi(r, semi_opts(toks_view(t@), j as int, cw, opt_view(center))),
        r matches Ok((_, _, m)) ==> j + m <= t.len(),
    decreases t@.len() - j,
{
    proof {
        lemma_toks_view(t@);
    }
    assert(t@.len() == t.len());
    if word_at(t, j, "cw") {
        match read_semi_opts(t, j + 1, true, center) {
            Err(e) => Err(e),
            Ok((a, b, m)) => Ok((a, b, 1 + m)),
        }
    } else if word_at(t, j, "ccw") {
        match read_semi_opts(t, j + 1, false, center) {
            Err(e) => Err(e),
            Ok((a, b, m)) => Ok((a, b, 1 + m)),
        }
    } else if word_at(t, j, "center") {
        match read_point_ref(t, j + 1) {
            Err(e) => Err(e),
            Ok(p) => match read_semi_opts(t, j + 2, cw, Some(p)) {
                Err(e) => Err(e),
                Ok((a, b, m)) => Ok((a, b, 2 + m)),
            },
        }
    } else {
        Ok((cw, center, 0))
    }
}

/// Pieces of code, by their views.
pub open spec fn codes_view(vv: Seq<Vec<Tok>>) -> Seq<Toks> {
    Seq::new(vv.len(), |k: int| toks_view(vv[k]@))
}

/// `r` gives the points and count `s` gives, or an error of the same kind.
pub open spec fn agrees_points(
    r: Result<(Vec<Vec<Tok>>, usize), DslError>,
    s: Res<(Seq<Toks>, nat)>,
) -> bool {
    match (r, s) {
        (Ok((a, n)), Ok((x, m))) => codes_view(a@) == x && n == m,
        (Err(e), Err(k)) => e.kind == k,
        _ => false,
    }
}

/// A name or coordinates that continue a polygon's points at `j`.
fn more_points_at(t: &Vec<Tok>, j: usize) -> (r: bool)
    ensures
        r == more_points(toks_view(t@), j as int),
{
    (name_at(t, j) || group_at(t, j, Delim::Paren)) && !word_at(t, j, "color") && !word_at(
        t,
        j,
        "stroke",
    ) && !word_at(t, j, "fill")
}

/// The further points of a polygon from `j` on, appended to `pts`.
fn read_poly_points(t: &Vec<Tok>, j: usize, pts: Vec<Vec<Tok>>) -> (r: Result<
    (Vec<Vec<Tok>>, usize),
    DslError,
>)
    requires
        j <= t@.len(),
    ensures
        agrees_points(r, poly_points(toks_view(t@), j as int, codes_view(pts@))),
        r matches Ok((_, m)) ==> j + m <= t.len(),
    decreases t@.len() - j,
{
    proof {
        lemma_toks_view(t@);
    }
    assert(t@.len() == t.len());
    if more_points_at(t, j) {
        match read_point_ref(t, j) {
            Err(e) => Err(e),
            Ok(p) => {
                let ghost pv = toks_view(p@);
                let mut pts = pts;
                let ghost before = pts@;
                pts.push(p);
                assert(codes_view(pts@) =~= codes_view(before).push(pv));
                match read_poly_points(t, j + 1, pts) {
                    Err(e) => Err(e),
                    Ok((a, m)) => Ok((a, 1 + m)),
                }
            },
        }
    } else {
        Ok((pts, 0))
    }
}

/// An optional trailing `kw e` at `j`.
fn read_opt_expr(t: &Vec<Tok>, j: usize, kw: &str) -> (r: Result<(Option<Vec<Tok>>, usize), DslError>)
    requires
        j <= t@.len(),
    ensures
        match (r, opt_expr(toks_view(t@), j as int, kw@)) {
            (Ok((a, n)), Ok((x, m))) => opt_view(a) == x && n == m,
            (Err(e), Err(k)) => e.kind == k,
            _ => false,
        },
        r matches Ok((_, m)) ==> j + m <= t.len(),
{
    proof {
        lemma_toks_view(t@);
    }
    assert(t@.len() == t.len());
    if word_at(t, j, kw) {
        match rust_at_exec(Syntax::Expr, t, j + 1, DslErrorKind::ExpectedExpr) {
            Err(e) => Err(e),
            Ok(n) => Ok((Some(f64_of_range(t, j + 1, j + 1 + n)), 1 + n)),
        }
    } else {
        Ok((None, 0))
    }
}

/// The keyword `kw` at `j` followed by an expression.
fn read_kw_expr(t: &Vec<Tok>, j: usize, kw: &str, which: Keyword) -> (r: Result<
    (Vec<Tok>, usize),
    DslError,
>)
    requires
        j <= t@.len(),
    ensures
        agrees_read(r, kw_expr(toks_view(t@), j as int, kw@, which)),
        r matches Ok((_, m)) ==> j + 1 + m <= t.len(),
{
    proof {
        lemma_toks_view(t@);
    }
    assert(t@.len() == t.len());
    if !word_at(t, j, kw) {
        Err(err_at(t, j, DslErrorKind::ExpectedKeyword(which)))
    } else {
        match rust_at_exec(Syntax::Expr, t, j + 1, DslErrorKind::ExpectedExpr) {
            Err(e) => Err(e),
            Ok(n) => {
                let v = clone_toks(t, j + 1, j + 1 + n);
                proof {
                    lemma_view_subrange(t@, j + 1, j + 1 + n);
                }
                Ok((v, n))
            },
        }
    }
}

// ---------------------------------------------------------------------------
// Reading objects.
// ---------------------------------------------------------------------------

/// Append `.m(args)`.
fn emit_method(out: &mut Vec<Tok>, m: &str, args: Vec<Tok>)
    requires
        ascii_ident(m@),
    ensures
        toks_view(final(out)@) == toks_view(old(out)@) + method(m@, toks_view(args@)),
{
    let ghost av = toks_view(args@);
    emit_pa(out, '.');
    emit_id(out, m);
    emit_group(out, Delim::Paren, args);
    assert(toks_view(out@) =~= toks_view(old(out)@) + method(m@, av));
}

/// Append `.m(args)` if there are arguments.
fn emit_opt_method(out: &mut Vec<Tok>, m: &str, o: Option<Vec<Tok>>)
    requires
        ascii_ident(m@),
    ensures
        toks_view(final(out)@) == toks_view(old(out)@) + opt_method(m@, opt_view(o)),
{
    match o {
        Some(args) => emit_method(out, m, args),
        None => {
            assert(toks_view(out@) =~= toks_view(old(out)@) + opt_method(m@, opt_view(o)));
        },
    }
}

/// Append the pieces `pts[k..]`, separated by `,`.
fn emit_comma_list(out: &mut Vec<Tok>, pts: &Vec<Vec<Tok>>, k: usize)
    requires
        k <= pts@.len(),
    ensures
        toks_view(final(out)@) == toks_view(old(out)@) + comma_list(codes_view(pts@).skip(k as int)),
    decreases pts@.len() - k,
{
    let ghost rest = codes_view(pts@).skip(k as int);
    if k == pts.len() {
        assert(rest.len() == 0);
        assert(toks_view(out@) =~= toks_view(old(out)@) + comma_list(rest));
    } else {
        let piece = clone_toks(&pts[k], 0, pts[k].len());
        proof {
            assert(pts@[k as int]@.subrange(0, pts@[k as int]@.len() as int) == pts@[k as int]@);
            assert(rest[0] == toks_view(pts@[k as int]@));
        }
        emit_all(out, piece);
        if k + 1 < pts.len() {
            let ghost mid = toks_view(out@);
            emit_pa(out, ',');
            emit_comma_list(out, pts, k + 1);
            assert(rest.drop_first() =~= codes_view(pts@).skip(k + 1));
            assert(toks_view(out@) =~= toks_view(old(out)@) + comma_list(rest));
        } else {
            assert(rest.len() == 1);
            assert(toks_view(out@) =~= toks_view(old(out)@) + comma_list(rest));
        }
    }
}

/// `r` read an object at `i`, reading `n` tokens after its word.
pub open spec fn read_within(r: Result<(Vec<Tok>, usize), DslError>, i: usize, len: usize) -> bool {
    r matches Ok((_, n)) ==> i + 1 + n <= len
}

/// A point, at token `i`.
fn read_obj_point(t: &Vec<Tok>, i: usize) -> (r: Result<(Vec<Tok>, usize), DslError>)
    requires
        i < t@.len(),
    ensures
        agrees_read(r, obj_point(toks_view(t@), i as int)),
        read_within(r, i, t.len()),
{
    proof {
        lemma_toks_view(t@);
        lemma_words();
    }
    assert(t@.len() == t.len());
    let named = name_at(t, i + 1);
    let k = if named {
        i + 2
    } else {
        i + 1
    };
    match read_group_pair(t, k, Delim::Paren) {
        Err(e) => Err(e),
        Ok((x, y)) => {
            let ghost xv = toks_view(x@);
            let ghost yv = toks_view(y@);
            match read_opt_expr(t, k + 1, "size") {
                Err(e) => Err(e),
                Ok((size, n)) => {
                    let ghost sv = opt_view(size);
                    let mut out: Vec<Tok> = Vec::new();
                    if named {
                        let w = text_of(t, i + 1);
                        emit_private1(&mut out, "point");
                        let mut g: Vec<Tok> = Vec::new();
                        emit_str_of(&mut g, w);
                        emit_pa(&mut g, ',');
                        emit_f64_pair(&mut g, x, y);
                        assert(toks_view(g@) =~= seq![str_of(w@), pa(',')] + f64_pair(xv, yv));
                        emit_group(&mut out, Delim::Paren, g);
                        emit_opt_method(&mut out, "with_size", size);
                        assert(toks_view(out@) =~= private(seq!["point"@]) + seq![
                            paren(seq![str_of(w@), pa(',')] + f64_pair(xv, yv)),
                        ] + opt_method("with_size"@, sv));
                    } else {
                        emit_private1(&mut out, "point_at");
                        let mut g: Vec<Tok> = Vec::new();
                        emit_f64_pair(&mut g, x, y);
                        emit_group(&mut out, Delim::Paren, g);
                        emit_opt_method(&mut out, "with_size", size);
                        assert(toks_view(out@) =~= private(seq!["point_at"@]) + seq![
                            paren(f64_pair(xv, yv)),
                        ] + opt_method("with_size"@, sv));
                    }
                    Ok((out, (k - i) + n))
                },
            }
        },
    }
}

/// A line, at token `i`.
fn read_obj_line(t: &Vec<Tok>, i: usize) -> (r: Result<(Vec<Tok>, usize), DslError>)
    requires
        i < t@.len(),
    ensures
        agrees_read(r, obj_line(toks_view(t@), i as int)),
        read_within(r, i, t.len()),
{
    proof {
        lemma_toks_view(t@);
        lemma_words();
    }
    assert(t@.len() == t.len());
    match read_point_ref(t, i + 1) {
        Err(e) => Err(e),
        Ok(f) => if !arrow_at(t, i + 2) {
            Err(err_at(t, i + 2, DslErrorKind::ExpectedArrow))
        } else {
            match read_point_ref(t, i + 4) {
                Err(e) => Err(e),
                Ok(g) => {
                    let ghost fv = toks_view(f@);
                    let ghost gv = toks_view(g@);
                    let mut out: Vec<Tok> = Vec::new();
                    emit_private1(&mut out, "line");
                    let mut a: Vec<Tok> = f;
                    emit_pa(&mut a, ',');
                    emit_all(&mut a, g);
                    assert(toks_view(a@) =~= fv + seq![pa(',')] + gv);
                    emit_group(&mut out, Delim::Paren, a);
                    assert(toks_view(out@) =~= private(seq!["line"@]) + seq![
                        paren(fv + seq![pa(',')] + gv),
                    ]);
                    Ok((out, 4))
                },
            }
        },
    }
}

/// A circle, at token `i`.
fn read_obj_circle(t: &Vec<Tok>, i: usize) -> (r: Result<(Vec<Tok>, usize), DslError>)
    requires
        i < t@.len(),
    ensures
        agrees_read(r, obj_circle(toks_view(t@), i as int)),
        read_within(r, i, t.len()),
{
    proof {
        lemma_toks_view(t@);
        lemma_words();
    }
    assert(t@.len() == t.len());
    match read_point_ref(t, i + 1) {
        Err(e) => Err(e),
        Ok(c) => match read_kw_expr(t, i + 2, "radius", Keyword::Radius) {
            Err(e) => Err(e),
            Ok((rad, n)) => {
                let ghost cv = toks_view(c@);
                let ghost rv = toks_view(rad@);
                let mut out: Vec<Tok> = Vec::new();
                emit_private1(&mut out, "circle");
                let mut a: Vec<Tok> = c;
                emit_pa(&mut a, ',');
                emit_as_f64(&mut a, rad);
                assert(toks_view(a@) =~= cv + seq![pa(',')] + as_f64(rv));
                emit_group(&mut out, Delim::Paren, a);
                assert(toks_view(out@) =~= private(seq!["circle"@]) + seq![
                    paren(cv + seq![pa(',')] + as_f64(rv)),
                ]);
                Ok((out, 2 + n))
            },
        },
    }
}

/// An ellipse, at token `i`.
fn read_obj_ellipse(t: &Vec<Tok>, i: usize) -> (r: Result<(Vec<Tok>, usize), DslError>)
    requires
        i < t@.len(),
    ensures
        agrees_read(r, obj_ellipse(toks_view(t@), i as int)),
        read_within(r, i, t.len()),
{
    proof {
        lemma_toks_view(t@);
        lemma_words();
    }
    assert(t@.len() == t.len());
    match read_point_ref(t, i + 1) {
        Err(e) => Err(e),
        Ok(c) => match read_kw_expr(t, i + 2, "rx", Keyword::Rx) {
            Err(e) => Err(e),
            Ok((rx, n1)) => match read_kw_expr(t, i + 3 + n1, "ry", Keyword::Ry) {
                Err(e) => Err(e),
                Ok((ry, n2)) => match read_opt_expr(t, i + 4 + n1 + n2, "rot") {
                    Err(e) => Err(e),
                    Ok((rot, n3)) => {
                        let ghost cv = toks_view(c@);
                        let ghost xv = toks_view(rx@);
                        let ghost yv = toks_view(ry@);
                        let ghost ov = opt_view(rot);
                        let mut out: Vec<Tok> = Vec::new();
                        emit_private1(&mut out, "ellipse");
                        let mut a: Vec<Tok> = c;
                        emit_pa(&mut a, ',');
                        emit_f64_pair(&mut a, rx, ry);
                        assert(toks_view(a@) =~= cv + seq![pa(',')] + f64_pair(xv, yv));
                        emit_group(&mut out, Delim::Paren, a);
                        emit_opt_method(&mut out, "with_rotation", rot);
                        assert(toks_view(out@) =~= private(seq!["ellipse"@]) + seq![
                            paren(cv + seq![pa(',')] + f64_pair(xv, yv)),
                        ] + opt_method("with_rotation"@, ov));
                        Ok((out, 3 + n1 + n2 + n3))
                    },
                },
            },
        },
    }
}

/// An arc, at token `i`.
fn read_obj_arc(t: &Vec<Tok>, i: usize) -> (r: Result<(Vec<Tok>, usize), DslError>)
    requires
        i < t@.len(),
    ensures
        agrees_read(r, obj_arc(toks_view(t@), i as int)),
        read_within(r, i, t.len()),
{
    proof {
        lemma_toks_view(t@);
        lemma_words();
    }
    assert(t@.len() == t.len());
    match read_point_ref(t, i + 1) {
        Err(e) => Err(e),
        Ok(c) => match read_kw_expr(t, i + 2, "radius", Keyword::Radius) {
            Err(e) => Err(e),
            Ok((rad, n1)) => match read_kw_expr(t, i + 3 + n1, "from", Keyword::From) {
                Err(e) => Err(e),
                Ok((a0, n2)) => match read_kw_expr(t, i + 4 + n1 + n2, "to", Keyword::To) {
                    Err(e) => Err(e),
                    Ok((b0, n3)) => {
                        let ghost cv = toks_view(c@);
                        let ghost rv = toks_view(rad@);
                        let ghost av = toks_view(a0@);
                        let ghost bv = toks_view(b0@);
                        let mut out: Vec<Tok> = Vec::new();
                        emit_private1(&mut out, "arc");
                        let mut a: Vec<Tok> = c;
                        emit_pa(&mut a, ',');
                        emit_as_f64(&mut a, rad);
                        emit_pa(&mut a, ',');
                        emit_f64_pair(&mut a, a0, b0);
                        assert(toks_view(a@) =~= cv + seq![pa(',')] + as_f64(rv) + seq![pa(',')]
                            + f64_pair(av, bv));
                        emit_group(&mut out, Delim::Paren, a);
                        assert(toks_view(out@) =~= private(seq!["arc"@]) + seq![
                            paren(
                                cv + seq![pa(',')] + as_f64(rv) + seq![pa(',')] + f64_pair(av, bv),
                            ),
                        ]);
                        Ok((out, 4 + n1 + n2 + n3))
                    },
                },
            },
        },
    }
}

/// A semicircle, at token `i`.
fn read_obj_semicircle(t: &Vec<Tok>, i: usize) -> (r: Result<(Vec<Tok>, usize), DslError>)
    requires
        i < t@.len(),
    ensures
        agrees_read(r, obj_semicircle(toks_view(t@), i as int)),
        read_within(r, i, t.len()),
{
    proof {
        lemma_toks_view(t@);
        lemma_words();
    }
    assert(t@.len() == t.len());
    match read_point_ref(t, i + 1) {
        Err(e) => Err(e),
        Ok(f) => if !arrow_at(t, i + 2) {
            Err(err_at(t, i + 2, DslErrorKind::ExpectedArrow))
        } else {
            match read_point_ref(t, i + 4) {
                Err(e) => Err(e),
                Ok(g) => match read_semi_opts(t, i + 5, false, None) {
                    Err(e) => Err(e),
                    Ok((cw, center, m)) => {
                        let ghost fv = toks_view(f@);
                        let ghost gv = toks_view(g@);
                        let ghost ctr = opt_view(center);
                        let dir: &str = if cw {
                            "Clockwise"
                        } else {
                            "CounterClockwise"
                        };
                        let mut out: Vec<Tok> = Vec::new();
                        emit_private1(&mut out, "semicircle");
                        let mut a: Vec<Tok> = f;
                        emit_pa(&mut a, ',');
                        emit_all(&mut a, g);
                        assert(toks_view(a@) =~= fv + seq![pa(',')] + gv);
                        emit_group(&mut out, Delim::Paren, a);
                        let mut d: Vec<Tok> = Vec::new();
                        emit_private2(&mut d, "SemicircleDir", dir);
                        emit_method(&mut out, "with_dir", d);
                        emit_opt_method(&mut out, "with_center", center);
                        assert(toks_view(out@) =~= private(seq!["semicircle"@]) + seq![
                            paren(fv + seq![pa(',')] + gv),
                        ] + method(
                            "with_dir"@,
                            private(
                                seq![
                                    "SemicircleDir"@,
                                    if cw {
                                        "Clockwise"@
                                    } else {
                                        "CounterClockwise"@
                                    },
                                ],
                            ),
                        ) + opt_method("with_center"@, ctr));
                        Ok((out, 4 + m))
                    },
                },
            }
        },
    }
}

/// A polygon, at token `i`.
fn read_obj_polygon(t: &Vec<Tok>, i: usize) -> (r: Result<(Vec<Tok>, usize), DslError>)
    requires
        i < t@.len(),
    ensures
        agrees_read(r, obj_polygon(toks_view(t@), i as int)),
        read_within(r, i, t.len()),
{
    proof {
        lemma_toks_view(t@);
        lemma_words();
    }
    assert(t@.len() == t.len());
    match read_point_ref(t, i + 1) {
        Err(e) => Err(e),
        Ok(p) => {
            let ghost pv = toks_view(p@);
            let mut first: Vec<Vec<Tok>> = Vec::new();
            first.push(p);
            assert(codes_view(first@) =~= seq![pv]);
            match read_poly_points(t, i + 2, first) {
                Err(e) => Err(e),
                Ok((pts, m)) => if pts.len() < 3 {
                    Err(err_at(t, i + 1, DslErrorKind::TooFewPolygonPoints))
                } else {
                    let ghost cv = codes_view(pts@);
                    let mut out: Vec<Tok> = Vec::new();
                    emit_private1(&mut out, "polygon");
                    let mut items: Vec<Tok> = Vec::new();
                    emit_comma_list(&mut items, &pts, 0);
                    assert(cv.skip(0) =~= cv);
                    let mut a: Vec<Tok> = Vec::new();
                    emit_id(&mut a, "vec");
                    emit_pa(&mut a, '!');
                    emit_group(&mut a, Delim::Bracket, items);
                    assert(toks_view(a@) =~= seq![
                        id("vec"@),
                        pa('!'),
                        TokView::Group(Delim::Bracket, comma_list(cv)),
                    ]);
                    emit_group(&mut out, Delim::Paren, a);
                    assert(toks_view(out@) =~= private(seq!["polygon"@]) + seq![
                        paren(
                            seq![
                                id("vec"@),
                                pa('!'),
                                TokView::Group(Delim::Bracket, comma_list(cv)),
                            ],
                        ),
                    ]);
                    Ok((out, 1 + m))
                },
            }
        },
    }
}

/// A curve (`eq`, `curve`, `eq_param`, `curve_param`), at token `i`.
fn read_obj_curve(t: &Vec<Tok>, i: usize) -> (r: Result<(Vec<Tok>, usize), DslError>)
    requires
        i < t@.len(),
    ensures
        agrees_read(r, obj_curve(toks_view(t@), i as int)),
        read_within(r, i, t.len()),
{
    proof {
        lemma_toks_view(t@);
        lemma_words();
    }
    assert(t@.len() == t.len());
    let w = text_of(t, i);
    if same_chars(w, "curve_param") || same_chars(w, "eq_param") {
        if !str_at(t, i + 1) || !str_at(t, i + 2) {
            Err(err_at(t, i + 1, DslErrorKind::ExpectedString))
        } else if !word_at(t, i + 3, "in") {
            Err(err_at(t, i + 3, DslErrorKind::ExpectedKeyword(Keyword::In)))
        } else {
            match read_group_pair(t, i + 4, Delim::Bracket) {
                Err(e) => Err(e),
                Ok((a0, b0)) => {
                    let ghost av = toks_view(a0@);
                    let ghost bv = toks_view(b0@);
                    let mut out: Vec<Tok> = Vec::new();
                    emit_private1(&mut out, "eq_param");
                    let mut a: Vec<Tok> = Vec::new();
                    emit(&mut a, clone_tok(&t[i + 1]));
                    emit_pa(&mut a, ',');
                    emit(&mut a, clone_tok(&t[i + 2]));
                    assert(toks_view(a@) =~= seq![
                        toks_view(t@)[i + 1],
                        pa(','),
                        toks_view(t@)[i + 2],
                    ]);
                    emit_group(&mut out, Delim::Paren, a);
                    let mut rg: Vec<Tok> = Vec::new();
                    emit_f64_pair(&mut rg, a0, b0);
                    emit_method(&mut out, "with_range", rg);
                    assert(toks_view(out@) =~= private(seq!["eq_param"@]) + seq![
                        paren(seq![toks_view(t@)[i + 1], pa(','), toks_view(t@)[i + 2]]),
                    ] + method("with_range"@, f64_pair(av, bv)));
                    Ok((out, 4))
                },
            }
        }
    } else if !str_at(t, i + 1) {
        Err(err_at(t, i + 1, DslErrorKind::ExpectedString))
    } else if !word_at(t, i + 2, "in") && !name_at(t, i + 2) {
        Err(err_at(t, i + 2, DslErrorKind::ExpectedIdent))
    } else {
        let default_var = word_at(t, i + 2, "in");
        let var: &str = if default_var {
            "x"
        } else {
            text_of(t, i + 2)
        };
        let k = if default_var {
            i + 2
        } else {
            i + 3
        };
        if !word_at(t, k, "in") {
            Err(err_at(t, k, DslErrorKind::ExpectedKeyword(Keyword::In)))
        } else {
            match read_group_pair(t, k + 1, Delim::Bracket) {
                Err(e) => Err(e),
                Ok((a0, b0)) => {
                    let ghost av = toks_view(a0@);
                    let ghost bv = toks_view(b0@);
                    let mut out: Vec<Tok> = Vec::new();
                    emit_private1(&mut out, "eq");
                    let mut a: Vec<Tok> = Vec::new();
                    emit(&mut a, clone_tok(&t[i + 1]));
                    emit_group(&mut out, Delim::Paren, a);
                    let mut v: Vec<Tok> = Vec::new();
                    emit_str_of(&mut v, var);
                    emit_method(&mut out, "with_var", v);
                    let mut rg: Vec<Tok> = Vec::new();
                    emit_f64_pair(&mut rg, a0, b0);
                    emit_method(&mut out, "with_range", rg);
                    proof {
                        reveal_strlit("x");
                        assert(seq![toks_view(t@)[i + 1]] =~= Seq::empty().push(
                            toks_view(t@)[i + 1],
                        ));
                        assert(seq![str_of(var@)] =~= Seq::empty().push(str_of(var@)));
                    }
                    assert(toks_view(out@) =~= private(seq!["eq"@]) + seq![
                        paren(seq![toks_view(t@)[i + 1]]),
                    ] + method("with_var"@, seq![str_of(var@)]) + method(
                        "with_range"@,
                        f64_pair(av, bv),
                    ));
                    Ok((out, k + 1 - i))
                },
            }
        }
    }
}

/// The object at token `i` (an object word).
fn read_obj(t: &Vec<Tok>, i: usize) -> (r: Result<(Vec<Tok>, usize), DslError>)
    requires
        i < t@.len(),
    ensures
        agrees_read(r, obj(toks_view(t@), i as int)),
        read_within(r, i, t.len()),
{
    let w = text_of(t, i);
    if same_chars(w, "point") {
        read_obj_point(t, i)
    } else if same_chars(w, "line") {
        read_obj_line(t, i)
    } else if same_chars(w, "circle") {
        read_obj_circle(t, i)
    } else if same_chars(w, "ellipse") {
        read_obj_ellipse(t, i)
    } else if same_chars(w, "arc") {
        read_obj_arc(t, i)
    } else if same_chars(w, "semicircle") {
        read_obj_semicircle(t, i)
    } else if same_chars(w, "polygon") {
        read_obj_polygon(t, i)
    } else {
        read_obj_curve(t, i)
    }
}

// ---------------------------------------------------------------------------
// Reading statements.
// ---------------------------------------------------------------------------

/// Append `__scene = ::dgs::__private::Scene::m(__scene, args);`.
fn emit_scene_call(out: &mut Vec<Tok>, m: &str, args: Vec<Tok>)
    requires
        ascii_ident(m@),
    ensures
        toks_view(final(out)@) == toks_view(old(out)@) + scene_call(m@, toks_view(args@)),
{
    proof {
        lemma_words();
    }
    let ghost av = toks_view(args@);
    emit_id(out, "__scene");
    emit_pa(out, '=');
    emit_private2(out, "Scene", m);
    let mut a: Vec<Tok> = Vec::new();
    emit_id(&mut a, "__scene");
    emit_pa(&mut a, ',');
    emit_all(&mut a, args);
    assert(toks_view(a@) =~= seq![id("__scene"@), pa(',')] + av);
    emit_group(out, Delim::Paren, a);
    emit_pa(out, ';');
    assert(toks_view(out@) =~= toks_view(old(out)@) + scene_call(m@, av));
}

/// Append the scene call with the argument `o`, if there is one.
fn emit_opt_scene_call(out: &mut Vec<Tok>, m: &str, o: Option<Vec<Tok>>)
    requires
        ascii_ident(m@),
    ensures
        toks_view(final(out)@) == toks_view(old(out)@) + opt_scene_call(m@, opt_view(o)),
{
    match o {
        Some(args) => emit_scene_call(out, m, args),
        None => {
            assert(toks_view(out@) =~= toks_view(old(out)@) + opt_scene_call(m@, opt_view(o)));
        },
    }
}

/// `w` starts an object.
fn is_object_word(w: &str) -> (r: bool)
    ensures
        r == object_word(w@),
{
    same_chars(w, "point") || same_chars(w, "line") || same_chars(w, "circle") || same_chars(
        w,
        "ellipse",
    ) || same_chars(w, "arc") || same_chars(w, "semicircle") || same_chars(w, "polygon")
        || same_chars(w, "curve") || same_chars(w, "curve_param") || same_chars(w, "eq")
        || same_chars(w, "eq_param")
}

/// The viewport statement at token `i`.
fn read_viewport(t: &Vec<Tok>, i: usize) -> (r: Result<(Vec<Tok>, usize), DslError>)
    requires
        i < t@.len(),
    ensures
        agrees_read(r, tr_viewport(toks_view(t@), i as int)),
        read_within(r, i, t.len()),
{
    proof {
        lemma_toks_view(t@);
        lemma_words();
    }
    assert(t@.len() == t.len());
    match read_group_pair(t, i + 1, Delim::Bracket) {
        Err(e) => Err(e),
        Ok((x1, y1)) => {
            let has_to = word_at(t, i + 2, "to");
            let second = if has_to {
                match read_group_pair(t, i + 3, Delim::Bracket) {
                    Err(e) => Err(e),
                    Ok((a, b)) => Ok((a, b, i + 4)),
                }
            } else {
                let mut a: Vec<Tok> = Vec::new();
                emit_num(&mut a, "10.0");
                let mut b: Vec<Tok> = Vec::new();
                emit_num(&mut b, "10.0");
                assert(toks_view(a@) =~= ten());
                assert(toks_view(b@) =~= ten());
                Ok((a, b, i + 2))
            };
            match second {
                Err(e) => Err(e),
                Ok((x2, y2, s)) => if !word_at(t, s, "size") {
                    Err(err_at(t, s, DslErrorKind::ExpectedKeyword(Keyword::Size)))
                } else {
                    match read_group_pair(t, s + 1, Delim::Paren) {
                        Err(e) => Err(e),
                        Ok((w, h)) => {
                            let ghost v1 = (toks_view(x1@), toks_view(y1@));
                            let ghost v2 = (toks_view(x2@), toks_view(y2@));
                            let ghost v3 = (toks_view(w@), toks_view(h@));
                            let mut g: Vec<Tok> = Vec::new();
                            emit_f64_pair(&mut g, x1, y1);
                            emit_pa(&mut g, ',');
                            emit_f64_pair(&mut g, x2, y2);
                            emit_pa(&mut g, ',');
                            emit_f64_pair(&mut g, w, h);
                            let ghost gv = f64_pair(v1.0, v1.1) + seq![pa(',')] + f64_pair(
                                v2.0,
                                v2.1,
                            ) + seq![pa(',')] + f64_pair(v3.0, v3.1);
                            assert(toks_view(g@) =~= gv);
                            let mut args: Vec<Tok> = Vec::new();
                            emit_private2(&mut args, "Viewport", "new");
                            emit_group(&mut args, Delim::Paren, g);
                            emit_pa(&mut args, ',');
                            let ghost argv = private(seq!["Viewport"@, "new"@]) + seq![
                                paren(gv),
                                pa(','),
                            ];
                            assert(toks_view(args@) =~= argv);
                            let mut out: Vec<Tok> = Vec::new();
                            emit_scene_call(&mut out, "viewport", args);
                            assert(toks_view(out@) =~= scene_call("viewport"@, argv));
                            Ok((out, s + 1 - i))
                        },
                    }
                },
            }
        },
    }
}

/// `theme light` or `theme dark` at token `i`.
fn read_theme(t: &Vec<Tok>, i: usize) -> (r: Result<(Vec<Tok>, usize), DslError>)
    requires
        i < t@.len(),
    ensures
        agrees_read(r, tr_theme(toks_view(t@), i as int)),
        read_within(r, i, t.len()),
{
    proof {
        lemma_toks_view(t@);
        lemma_words();
    }
    assert(t@.len() == t.len());
    let light = word_at(t, i + 1, "light");
    if light || word_at(t, i + 1, "dark") {
        let mut args: Vec<Tok> = Vec::new();
        emit_private2(&mut args, "Theme", if light { "light" } else { "dark" });
        let empty: Vec<Tok> = Vec::new();
        proof {
            lemma_toks_view(empty@);
        }
        assert(toks_view(empty@) =~= Seq::<TokView>::empty());
        emit_group(&mut args, Delim::Paren, empty);
        let ghost which = if light {
            "light"@
        } else {
            "dark"@
        };
        assert(toks_view(args@) =~= private(seq!["Theme"@, which]) + seq![paren(seq![])]);
        let mut out: Vec<Tok> = Vec::new();
        emit_scene_call(&mut out, "theme", args);
        proof {
            lemma_toks_view(Seq::<Tok>::empty());
        }
        assert(toks_view(out@) =~= scene_call(
            "theme"@,
            private(seq!["Theme"@, which]) + seq![paren(seq![])],
        ));
        Ok((out, 1))
    } else {
        Err(err_at(t, i + 1, DslErrorKind::ExpectedTheme))
    }
}

/// `grid` and its settings at token `i`.
fn read_grid(t: &Vec<Tok>, i: usize) -> (r: Result<(Vec<Tok>, usize), DslError>)
    requires
        i < t@.len(),
    ensures
        agrees_read(r, tr_grid(toks_view(t@), i as int)),
        read_within(r, i, t.len()),
{
    proof {
        lemma_toks_view(t@);
        lemma_words();
    }
    assert(t@.len() == t.len());
    match read_grid_opts(t, i + 1, None, None, None) {
        Err(e) => Err(e),
        Ok((sp, w, c, m)) => {
            let ghost spv = opt_view(sp);
            let ghost wv = opt_view(w);
            let ghost cv = opt_view(c);
            let mut tr: Vec<Tok> = Vec::new();
            emit_id(&mut tr, "true");
            proof {
                lemma_toks_view(Seq::<Tok>::empty());
            }
            assert(toks_view(tr@) =~= seq![id("true"@)]);
            let mut out: Vec<Tok> = Vec::new();
            emit_scene_call(&mut out, "grid", tr);
            emit_opt_scene_call(&mut out, "grid_spacing", sp);
            emit_opt_scene_call(&mut out, "grid_width", w);
            emit_opt_scene_call(&mut out, "grid_color", c);
            assert(toks_view(out@) =~= scene_call("grid"@, seq![id("true"@)]) + opt_scene_call(
                "grid_spacing"@,
                spv,
            ) + opt_scene_call("grid_width"@, wv) + opt_scene_call("grid_color"@, cv));
            Ok((out, m))
        },
    }
}

/// `axes` and its settings at token `i`.
fn read_axes(t: &Vec<Tok>, i: usize) -> (r: Result<(Vec<Tok>, usize), DslError>)
    requires
        i < t@.len(),
    ensures
        agrees_read(r, tr_axes(toks_view(t@), i as int)),
        read_within(r, i, t.len()),
{
    proof {
        lemma_toks_view(t@);
        lemma_words();
    }
    assert(t@.len() == t.len());
    match read_axes_opts(t, i + 1, None, None, None) {
        Err(e) => Err(e),
        Ok((w, c, ls, m)) => {
            let ghost wv = opt_view(w);
            let ghost cv = opt_view(c);
            let ghost lv = opt_view(ls);
            let mut tr: Vec<Tok> = Vec::new();
            emit_id(&mut tr, "true");
            proof {
                lemma_toks_view(Seq::<Tok>::empty());
            }
            assert(toks_view(tr@) =~= seq![id("true"@)]);
            let mut out: Vec<Tok> = Vec::new();
            emit_scene_call(&mut out, "axes", tr);
            emit_opt_scene_call(&mut out, "axis_width", w);
            emit_opt_scene_call(&mut out, "axis_color", c);
            emit_opt_scene_call(&mut out, "axis_label_size", ls);
            assert(toks_view(out@) =~= scene_call("axes"@, seq![id("true"@)]) + opt_scene_call(
                "axis_width"@,
                wv,
            ) + opt_scene_call("axis_color"@, cv) + opt_scene_call("axis_label_size"@, lv));
            Ok((out, m))
        },
    }
}

/// An object and its styles at token `i`.
fn read_push(t: &Vec<Tok>, i: usize) -> (r: Result<(Vec<Tok>, usize), DslError>)
    requires
        i < t@.len(),
    ensures
        agrees_read(r, tr_push(toks_view(t@), i as int)),
        read_within(r, i, t.len()),
{
    proof {
        lemma_words();
    }
    match read_obj(t, i) {
        Err(e) => Err(e),
        Ok((o, n)) => match read_style_opts(t, i + 1 + n, None, None, None) {
            Err(e) => Err(e),
            Ok((c, st, f, m)) => {
                let ghost ov = toks_view(o@);
                let ghost cv = opt_view(c);
                let ghost sv = opt_view(st);
                let ghost fv = opt_view(f);
                let mut a: Vec<Tok> = o;
                emit_opt_method(&mut a, "with_color", c);
                emit_opt_method(&mut a, "with_stroke", st);
                emit_opt_method(&mut a, "with_fill", f);
                let ghost av = ov + opt_method("with_color"@, cv) + opt_method("with_stroke"@, sv)
                    + opt_method("with_fill"@, fv);
                assert(toks_view(a@) =~= av);
                let mut out: Vec<Tok> = Vec::new();
                emit_scene_call(&mut out, "push", a);
                proof {
                    lemma_toks_view(Seq::<Tok>::empty());
                }
                assert(toks_view(out@) =~= scene_call("push"@, av));
                Ok((out, n + m))
            },
        },
    }
}

/// The statement at token `i` that is not Rust control flow.
fn read_simple(t: &Vec<Tok>, i: usize) -> (r: Result<(Vec<Tok>, usize), DslError>)
    requires
        i < t@.len(),
    ensures
        agrees_read(r, tr_simple(toks_view(t@), i as int)),
        read_within(r, i, t.len()),
{
    proof {
        lemma_toks_view(t@);
    }
    if word_at(t, i, "viewport") {
        read_viewport(t, i)
    } else if word_at(t, i, "theme") {
        read_theme(t, i)
    } else if word_at(t, i, "grid") {
        read_grid(t, i)
    } else if word_at(t, i, "axes") {
        read_axes(t, i)
    } else if match &t[i] {
        Tok::Ident(w, _) => is_object_word(w.as_str()),
        _ => false,
    } {
        read_push(t, i)
    } else {
        Err(err_at(t, i, DslErrorKind::ExpectedStatement))
    }
}

/// The statements of `t` from `i` on: their code.
fn read_stmts(t: &Vec<Tok>, i: usize) -> (r: Result<Vec<Tok>, DslError>)
    ensures
        agrees_code(r, tr_stmts(toks_view(t@), i as int)),
    decreases toks_view(t@), left(toks_view(t@), i as int), 2int,
{
    proof {
        lemma_toks_view(t@);
    }
    assert(t@.len() == t.len());
    if i >= t.len() {
        let v: Vec<Tok> = Vec::new();
        proof {
            lemma_toks_view(v@);
        }
        assert(toks_view(v@) =~= Seq::<TokView>::empty());
        Ok(v)
    } else {
        match read_stmt(t, i) {
            Err(e) => Err(e),
            Ok((c, n)) => {
                let j = i + 1 + n;
                let j2 = if punct_at(t, j, ';') {
                    j + 1
                } else {
                    j
                };
                match read_stmts(t, j2) {
                    Err(e) => Err(e),
                    Ok(rest) => {
                        let mut c = c;
                        emit_all(&mut c, rest);
                        Ok(c)
                    },
                }
            },
        }
    }
}

/// The braced body at token `b`: its code.
fn read_body(t: &Vec<Tok>, b: usize) -> (r: Result<Vec<Tok>, DslError>)
    ensures
        agrees_code(r, tr_body(toks_view(t@), b as int)),
        r is Ok ==> b < t.len(),
    decreases toks_view(t@), left(toks_view(t@), b as int), 0int,
{
    proof {
        lemma_toks_view(t@);
    }
    if group_at(t, b, Delim::Brace) {
        let g = inner_at(t, b);
        proof {
            assert(decreases_to!(toks_view(t@) => toks_view(t@)[b as int]));
        }
        read_stmts(g, 0)
    } else {
        Err(err_at(t, b, DslErrorKind::ExpectedBraces))
    }
}

/// The statement at token `i`: its code and the tokens read after its
/// first.
#[verifier::rlimit(50)]
fn read_stmt(t: &Vec<Tok>, i: usize) -> (r: Result<(Vec<Tok>, usize), DslError>)
    requires
        i < t@.len(),
    ensures
        agrees_read(r, tr_stmt(toks_view(t@), i as int)),
        read_within(r, i, t.len()),
    decreases toks_view(t@), left(toks_view(t@), i as int), 1int,
{
    proof {
        lemma_toks_view(t@);
        lemma_words();
    }
    assert(t@.len() == t.len());
    if word_at(t, i, "for") {
        match rust_at_exec(Syntax::Pat, t, i + 1, DslErrorKind::ExpectedPattern) {
            Err(e) => Err(e),
            Ok(np) => {
                let p = i + 1 + np;
                if !word_at(t, p, "in") {
                    Err(err_at(t, p, DslErrorKind::ExpectedKeyword(Keyword::In)))
                } else {
                    match rust_at_exec(Syntax::ExprNoStruct, t, p + 1, DslErrorKind::ExpectedExpr) {
                        Err(e) => Err(e),
                        Ok(ne) => {
                            let b = p + 1 + ne;
                            match read_body(t, b) {
                                Err(e) => Err(e),
                                Ok(body) => {
                                    let ghost bv = toks_view(body@);
                                    let mut out: Vec<Tok> = Vec::new();
                                    emit_id(&mut out, "for");
                                    emit_range(&mut out, t, i + 1, p);
                                    emit_id(&mut out, "in");
                                    emit_range(&mut out, t, p + 1, b);
                                    emit_group(&mut out, Delim::Brace, body);
                                    proof {
                                        lemma_toks_view(Seq::<Tok>::empty());
                                    }
                                    assert(toks_view(out@) =~= seq![id("for"@)]
                                        + toks_view(t@).subrange(i + 1, p as int) + seq![
                                        id("in"@),
                                    ] + toks_view(t@).subrange(p + 1, b as int) + seq![
                                        brace(bv),
                                    ]);
                                    Ok((out, np + ne + 2))
                                },
                            }
                        },
                    }
                }
            },
        }
    } else if word_at(t, i, "while") {
        match rust_at_exec(Syntax::ExprNoStruct, t, i + 1, DslErrorKind::ExpectedExpr) {
            Err(e) => Err(e),
            Ok(ne) => match read_body(t, i + 1 + ne) {
                Err(e) => Err(e),
                Ok(body) => {
                    let ghost bv = toks_view(body@);
                    let mut out: Vec<Tok> = Vec::new();
                    emit_id(&mut out, "while");
                    emit_range(&mut out, t, i + 1, i + 1 + ne);
                    emit_group(&mut out, Delim::Brace, body);
                    proof {
                        lemma_toks_view(Seq::<Tok>::empty());
                    }
                    assert(toks_view(out@) =~= seq![id("while"@)] + toks_view(t@).subrange(
                        i + 1,
                        i + 1 + ne,
                    ) + seq![brace(bv)]);
                    Ok((out, ne + 1))
                },
            },
        }
    } else if word_at(t, i, "loop") {
        match read_body(t, i + 1) {
            Err(e) => Err(e),
            Ok(body) => {
                let ghost bv = toks_view(body@);
                let mut out: Vec<Tok> = Vec::new();
                emit_id(&mut out, "loop");
                emit_group(&mut out, Delim::Brace, body);
                proof {
                    lemma_toks_view(Seq::<Tok>::empty());
                }
                assert(toks_view(out@) =~= seq![id("loop"@), brace(bv)]);
                Ok((out, 1))
            },
        }
    } else if word_at(t, i, "if") {
        read_if(t, i)
    } else if punct_at(t, i, '#') {
        match rust_at_exec(Syntax::Stmt, t, i + 1, DslErrorKind::ExpectedRustStmt) {
            Err(e) => Err(e),
            Ok(n) => {
                let mut out: Vec<Tok> = Vec::new();
                emit_range(&mut out, t, i + 1, i + 1 + n);
                proof {
                    lemma_toks_view(Seq::<Tok>::empty());
                }
                assert(toks_view(out@) =~= toks_view(t@).subrange(i + 1, i + 1 + n));
                Ok((out, n))
            },
        }
    } else {
        read_simple(t, i)
    }
}

/// `if c { .. }` and what follows it, at token `i`.
#[verifier::rlimit(50)]
fn read_if(t: &Vec<Tok>, i: usize) -> (r: Result<(Vec<Tok>, usize), DslError>)
    requires
        i < t@.len(),
    ensures
        agrees_read(r, tr_if(toks_view(t@), i as int)),
        read_within(r, i, t.len()),
    decreases toks_view(t@), left(toks_view(t@), i as int), 0int,
{
    proof {
        lemma_toks_view(t@);
        lemma_words();
    }
    assert(t@.len() == t.len());
    match rust_at_exec(Syntax::ExprNoStruct, t, i + 1, DslErrorKind::ExpectedExpr) {
        Err(e) => Err(e),
        Ok(ne) => {
            let b = i + 1 + ne;
            match read_body(t, b) {
                Err(e) => Err(e),
                Ok(body) => {
                    let ghost bv = toks_view(body@);
                    let mut head: Vec<Tok> = Vec::new();
                    emit_id(&mut head, "if");
                    emit_range(&mut head, t, i + 1, b);
                    emit_group(&mut head, Delim::Brace, body);
                    proof {
                        lemma_toks_view(Seq::<Tok>::empty());
                    }
                    let ghost hv = seq![id("if"@)] + toks_view(t@).subrange(i + 1, b as int) + seq![
                        brace(bv),
                    ];
                    assert(toks_view(head@) =~= hv);
                    if !word_at(t, b + 1, "else") {
                        Ok((head, ne + 1))
                    } else if word_at(t, b + 2, "if") {
                        match read_if(t, b + 2) {
                            Err(e) => Err(e),
                            Ok((rest, n2)) => {
                                let ghost rv = toks_view(rest@);
                                emit_id(&mut head, "else");
                                emit_all(&mut head, rest);
                                assert(toks_view(head@) =~= hv + seq![id("else"@)] + rv);
                                Ok((head, ne + 3 + n2))
                            },
                        }
                    } else {
                        match read_body(t, b + 2) {
                            Err(e) => Err(e),
                            Ok(other) => {
                                let ghost ov = toks_view(other@);
                                emit_id(&mut head, "else");
                                emit_group(&mut head, Delim::Brace, other);
                                assert(toks_view(head@) =~= hv + seq![id("else"@), brace(ov)]);
                                Ok((head, ne + 3))
                            },
                        }
                    }
                },
            }
        },
    }
}

/// Append the numbers of the viewport a scene starts with.
fn emit_start_viewport(out: &mut Vec<Tok>)
    ensures
        toks_view(final(out)@) == toks_view(old(out)@) + start_viewport(),
{
    emit_num(out, "0.0");
    emit_pa(out, ',');
    emit_num(out, "0.0");
    emit_pa(out, ',');
    emit_num(out, "10.0");
    emit_pa(out, ',');
    emit_num(out, "10.0");
    emit_pa(out, ',');
    emit_num(out, "400.0");
    emit_pa(out, ',');
    emit_num(out, "400.0");
    assert(toks_view(out@) =~= toks_view(old(out)@) + start_viewport());
}

/// Append the statement that starts a scene.
fn emit_prelude(out: &mut Vec<Tok>)
    ensures
        toks_view(final(out)@) == toks_view(old(out)@) + prelude(),
{
    proof {
        lemma_words();
        lemma_toks_view(Seq::<Tok>::empty());
    }
    emit_pa(out, '#');
    let mut lint: Vec<Tok> = Vec::new();
    emit_id(&mut lint, "unused_mut");
    assert(toks_view(lint@) =~= seq![id("unused_mut"@)]);
    let mut attr: Vec<Tok> = Vec::new();
    emit_id(&mut attr, "allow");
    emit_group(&mut attr, Delim::Paren, lint);
    assert(toks_view(attr@) =~= seq![id("allow"@), paren(seq![id("unused_mut"@)])]);
    emit_group(out, Delim::Bracket, attr);
    emit_id(out, "let");
    emit_id(out, "mut");
    emit_id(out, "__scene");
    emit_pa(out, '=');
    emit_private2(out, "Scene", "new");
    let mut nums: Vec<Tok> = Vec::new();
    emit_start_viewport(&mut nums);
    assert(toks_view(nums@) =~= start_viewport());
    let mut vp: Vec<Tok> = Vec::new();
    emit_private2(&mut vp, "Viewport", "new");
    emit_group(&mut vp, Delim::Paren, nums);
    emit_pa(&mut vp, ',');
    assert(toks_view(vp@) =~= private(seq!["Viewport"@, "new"@]) + seq![
        paren(start_viewport()),
        pa(','),
    ]);
    emit_group(out, Delim::Paren, vp);
    emit_pa(out, ';');
    assert(toks_view(out@) =~= toks_view(old(out)@) + prelude());
}

/// The code of the statement list `input`: a block that starts a scene,
/// runs the statements on it and yields it; or why it was refused.
pub fn generate(input: &Vec<Tok>) -> (r: Result<Vec<Tok>, DslError>)
    ensures
        agrees_code(r, expand(toks_view(input@))),
{
    proof {
        lemma_words();
    }
    match read_stmts(input, 0) {
        Err(e) => Err(e),
        Ok(body) => {
            let ghost bv = toks_view(body@);
            let mut block: Vec<Tok> = Vec::new();
            emit_prelude(&mut block);
            emit_all(&mut block, body);
            emit_id(&mut block, "__scene");
            proof {
                lemma_toks_view(Seq::<Tok>::empty());
            }
            assert(toks_view(block@) =~= prelude() + bv + seq![id("__scene"@)]);
            let mut out: Vec<Tok> = Vec::new();
            emit_group(&mut out, Delim::Brace, block);
            assert(toks_view(out@) =~= seq![brace(prelude() + bv + seq![id("__scene"@)])]);
            Ok(out)
        },
    }
}

} // verus!
