//! Token trees, as the scene language reads and writes them.

use vstd::prelude::*;

verus! {

#[verifier::external_type_specification]
#[verifier::external_body]
pub struct ExIdent(proc_macro2::Ident);

#[verifier::external_type_specification]
#[verifier::external_body]
pub struct ExPunct(proc_macro2::Punct);

#[verifier::external_type_specification]
#[verifier::external_body]
pub struct ExLiteral(proc_macro2::Literal);

#[verifier::external_type_specification]
#[verifier::external_body]
pub struct ExSpan(proc_macro2::Span);

/// The delimiter of a group (`Invisible`: no delimiter, as around a
/// macro fragment).
#[derive(Debug, Clone, Copy, PartialEq, Eq, Structural)]
pub enum Delim {
    Paren,
    Brace,
    Bracket,
    Invisible,
}

/// A token tree. Each leaf holds its text (what the language reads) and
/// the token itself (what is written back, with its span).
pub enum Tok {
    /// An identifier or keyword, and its text.
    Ident(String, proc_macro2::Ident),
    /// A punctuation character; `true` when it is joined to the next one
    /// (as `-` in `->`).
    Punct(char, bool, proc_macro2::Punct),
    /// A literal, and its text (`"red"` with its quotes, `1.5`).
    Lit(String, proc_macro2::Literal),
    /// A delimited group of token trees.
    Group(Delim, Vec<Tok>, proc_macro2::Span),
}

/// What a token tree says, without its spans: a string literal by its
/// value, another literal by its text.
pub enum TokView {
    Ident(Seq<char>),
    Punct(char, bool),
    Str(Seq<char>),
    Lit(Seq<char>),
    Group(Delim, Seq<TokView>),
}

/// The view of the literal written `text`: its value where `syn` reads it
/// as a string literal, else its text.
pub open spec fn lit_view(text: Seq<char>) -> TokView {
    match str_value(text) {
        Some(v) => TokView::Str(v),
        None => TokView::Lit(text),
    }
}

/// The view of each token tree of `s`.
pub open spec fn toks_view(s: Seq<Tok>) -> Seq<TokView>
    decreases s,
{
    if s.len() == 0 {
        Seq::empty()
    } else {
        seq![tok_view(s[0])] + toks_view(s.drop_first())
    }
}

/// The view of a token tree.
pub open spec fn tok_view(t: Tok) -> TokView
    decreases t,
{
    match t {
        Tok::Ident(s, _) => TokView::Ident(s@),
        Tok::Punct(c, j, _) => TokView::Punct(c, j),
        Tok::Lit(s, _) => lit_view(s@),
        Tok::Group(d, v, _) => TokView::Group(d, toks_view(v@)),
    }
}


/// The view of a sequence has one entry per token tree, each its view.
pub proof fn lemma_toks_view(s: Seq<Tok>)
    ensures
        toks_view(s).len() == s.len(),
        forall|k: int| 0 <= k < s.len() ==> #[trigger] toks_view(s)[k] == tok_view(s[k]),
    decreases s.len(),
{
    if s.len() > 0 {
        lemma_toks_view(s.drop_first());
        assert forall|k: int| 0 <= k < s.len() implies #[trigger] toks_view(s)[k] == tok_view(
            s[k],
        ) by {
            if k > 0 {
                assert(s.drop_first()[k - 1] == s[k]);
            }
        }
    }
}

/// The view of a concatenation is the concatenation of the views.
pub proof fn lemma_view_concat(a: Seq<Tok>, b: Seq<Tok>)
    ensures
        toks_view(a + b) == toks_view(a) + toks_view(b),
{
    lemma_toks_view(a);
    lemma_toks_view(b);
    lemma_toks_view(a + b);
    assert(toks_view(a + b) =~= toks_view(a) + toks_view(b));
}

/// The view of an appended sequence is the appended view.
pub proof fn lemma_view_push(a: Seq<Tok>, x: Tok)
    ensures
        toks_view(a.push(x)) == toks_view(a).push(tok_view(x)),
{
    lemma_toks_view(a);
    lemma_toks_view(a.push(x));
    assert(toks_view(a.push(x)) =~= toks_view(a).push(tok_view(x)));
}

/// The view of a range is the range of the view.
pub proof fn lemma_view_subrange(a: Seq<Tok>, i: int, j: int)
    requires
        0 <= i <= j <= a.len(),
    ensures
        toks_view(a.subrange(i, j)) == toks_view(a).subrange(i, j),
{
    lemma_toks_view(a);
    lemma_toks_view(a.subrange(i, j));
    assert(toks_view(a.subrange(i, j)) =~= toks_view(a).subrange(i, j));
}

pub assume_specification[ <proc_macro2::Ident as Clone>::clone ](i: &proc_macro2::Ident) -> proc_macro2::Ident;

pub assume_specification[ <proc_macro2::Punct as Clone>::clone ](p: &proc_macro2::Punct) -> proc_macro2::Punct;

pub assume_specification[ <proc_macro2::Literal as Clone>::clone ](l: &proc_macro2::Literal) -> proc_macro2::Literal;

/// A copy of a token tree.
pub fn clone_tok(t: &Tok) -> (r: Tok)
    ensures
        tok_view(r) == tok_view(*t),
    decreases t,
{
    if let Tok::Group(d, v, sp) = t {
        let inner = clone_toks(v, 0, v.len());
        proof {
            assert(v@.subrange(0, v@.len() as int) == v@);
        }
        Tok::Group(*d, inner, *sp)
    } else {
        clone_leaf(t)
    }
}

/// A copy of a token that is not a group.
fn clone_leaf(t: &Tok) -> (r: Tok)
    requires
        !(t is Group),
    ensures
        tok_view(r) == tok_view(*t),
{
    match t {
        Tok::Ident(s, i) => Tok::Ident(s.clone(), i.clone()),
        Tok::Punct(c, j, p) => Tok::Punct(*c, *j, p.clone()),
        Tok::Lit(s, l) => Tok::Lit(s.clone(), l.clone()),
        Tok::Group(d, v, sp) => Tok::Group(*d, Vec::new(), *sp),
    }
}

/// Copies of the token trees `v[lo..hi]`.
pub fn clone_toks(v: &Vec<Tok>, lo: usize, hi: usize) -> (r: Vec<Tok>)
    requires
        lo <= hi <= v@.len(),
    ensures
        toks_view(r@) == toks_view(v@.subrange(lo as int, hi as int)),
    decreases v, hi - lo,
{
    let mut r: Vec<Tok> = Vec::new();
    let mut k = lo;
    while k < hi
        invariant
            lo <= k <= hi <= v@.len(),
            toks_view(r@) == toks_view(v@.subrange(lo as int, k as int)),
        decreases hi - k,
    {
        let c = clone_tok(&v[k]);
        proof {
            lemma_view_push(r@, c);
            lemma_view_push(v@.subrange(lo as int, k as int), v@[k as int]);
            assert(v@.subrange(lo as int, k + 1) == v@.subrange(lo as int, k as int).push(v@[k as int]));
        }
        r.push(c);
        k = k + 1;
    }
    r
}


/// The characters that open a group delimited by `d`.
pub open spec fn open_text(d: Delim) -> Seq<char> {
    match d {
        Delim::Paren => seq!['('],
        Delim::Brace => seq!['{'],
        Delim::Bracket => seq!['['],
        Delim::Invisible => seq![' '],
    }
}

/// The characters that close a group delimited by `d`.
pub open spec fn close_text(d: Delim) -> Seq<char> {
    match d {
        Delim::Paren => seq![')'],
        Delim::Brace => seq!['}'],
        Delim::Bracket => seq![']'],
        Delim::Invisible => seq![' '],
    }
}

/// Source text that lexes back to the token trees `s`: each identifier
/// and literal followed by a space, a punctuation character followed by a
/// space unless it is joined to the next one, each group inside its
/// delimiters (an invisible group between spaces).
pub open spec fn source_of(s: Seq<TokView>) -> Seq<char>
    decreases s,
{
    if s.len() == 0 {
        Seq::empty()
    } else {
        tok_source(s[0]) + source_of(s.drop_first())
    }
}

/// The source text of one token tree.
pub open spec fn tok_source(t: TokView) -> Seq<char>
    decreases t,
{
    match t {
        TokView::Ident(w) => w.push(' '),
        TokView::Punct(c, joint) => if joint {
            seq![c]
        } else {
            seq![c, ' ']
        },
        TokView::Str(v) => quoted(v),
        TokView::Lit(w) => w.push(' '),
        TokView::Group(d, g) => open_text(d) + source_of(g) + close_text(d),
    }
}

/// A character of a string literal's value as it is written inside the
/// quotes: `"`, `\` and a carriage return escaped, others as they are.
pub open spec fn escaped_char(c: char) -> Seq<char> {
    if c == '"' {
        seq!['\\', '"']
    } else if c == '\\' {
        seq!['\\', '\\']
    } else if c == '\r' {
        seq!['\\', 'r']
    } else {
        seq![c]
    }
}

/// The characters of `v` as written inside a string literal's quotes.
pub open spec fn escaped(v: Seq<char>) -> Seq<char>
    decreases v.len(),
{
    if v.len() == 0 {
        Seq::empty()
    } else {
        escaped(v.drop_last()) + escaped_char(v.last())
    }
}

/// A string literal whose value is `v`, followed by a space.
pub open spec fn quoted(v: Seq<char>) -> Seq<char> {
    seq!['"'] + escaped(v) + seq!['"', ' ']
}

/// Append a string literal whose value is `v`, and a space.
fn write_quoted(out: &mut Vec<char>, v: &str)
    ensures
        final(out)@ == old(out)@ + quoted(v@),
{
    out.push('"');
    let n = v.unicode_len();
    let mut i: usize = 0;
    while i < n
        invariant
            n == v@.len(),
            i <= n,
            out@ == old(out)@ + seq!['"'] + escaped(v@.take(i as int)),
        decreases n - i,
    {
        let c = v.get_char(i);
        let ghost before = out@;
        if c == '"' {
            out.push('\\');
            out.push('"');
        } else if c == '\\' {
            out.push('\\');
            out.push('\\');
        } else if c == '\r' {
            out.push('\\');
            out.push('r');
        } else {
            out.push(c);
        }
        assert(out@ =~= before + escaped_char(c));
        assert(v@.take(i + 1).drop_last() =~= v@.take(i as int));
        i = i + 1;
        assert(out@ =~= old(out)@ + seq!['"'] + escaped(v@.take(i as int)));
    }
    assert(v@.take(n as int) =~= v@);
    out.push('"');
    out.push(' ');
    assert(out@ =~= old(out)@ + quoted(v@));
}

/// Append the source text of the token trees `t[lo..hi]`.
pub fn write_source(out: &mut Vec<char>, t: &Vec<Tok>, lo: usize, hi: usize)
    requires
        lo <= hi <= t@.len(),
    ensures
        final(out)@ == old(out)@ + source_of(toks_view(t@).subrange(lo as int, hi as int)),
    decreases toks_view(t@), 1int,
{
    proof {
        lemma_toks_view(t@);
    }
    let ghost whole = toks_view(t@).subrange(lo as int, hi as int);
    let mut k = lo;
    while k < hi
        invariant
            lo <= k <= hi <= t@.len(),
            toks_view(t@).len() == t@.len(),
            whole == toks_view(t@).subrange(lo as int, hi as int),
            old(out)@ + source_of(whole) == out@ + source_of(
                toks_view(t@).subrange(k as int, hi as int),
            ),
        decreases hi - k,
    {
        let ghost rest = toks_view(t@).subrange(k as int, hi as int);
        assert(rest[0] == toks_view(t@)[k as int]);
        assert(rest.drop_first() =~= toks_view(t@).subrange(k + 1, hi as int));
        let ghost before = out@;
        write_tok_source(out, t, k);
        assert(before + source_of(rest) =~= out@ + source_of(rest.drop_first()));
        k = k + 1;
    }
    assert(toks_view(t@).subrange(hi as int, hi as int) =~= Seq::<TokView>::empty());
    assert(old(out)@ + source_of(whole) =~= out@);
}

/// Append the source text of the token tree `t[k]`.
fn write_tok_source(out: &mut Vec<char>, t: &Vec<Tok>, k: usize)
    requires
        k < t@.len(),
    ensures
        final(out)@ == old(out)@ + tok_source(toks_view(t@)[k as int]),
    decreases toks_view(t@), 0int,
{
    proof {
        lemma_toks_view(t@);
    }
    match &t[k] {
        Tok::Ident(w, _) => {
            write_chars(out, w.as_str());
            out.push(' ');
        },
        Tok::Punct(c, joint, _) => {
            out.push(*c);
            if !*joint {
                out.push(' ');
            }
        },
        Tok::Lit(w, _) => match string_value(w.as_str()) {
            Some(v) => write_quoted(out, v.as_str()),
            None => {
                write_chars(out, w.as_str());
                out.push(' ');
            },
        },
        Tok::Group(d, g, _) => {
            let (o, c) = match d {
                Delim::Paren => ('(', ')'),
                Delim::Brace => ('{', '}'),
                Delim::Bracket => ('[', ']'),
                Delim::Invisible => (' ', ' '),
            };
            out.push(o);
            proof {
                assert(toks_view(t@)[k as int] == TokView::Group(*d, toks_view(g@)));
                assert(decreases_to!(toks_view(t@) => toks_view(t@)[k as int]));
                assert(decreases_to!(toks_view(t@)[k as int] => toks_view(t@)[k as int]->Group_1));
                assert(g@.subrange(0, g@.len() as int) == g@);
                lemma_toks_view(g@);
                assert(toks_view(g@).subrange(0, g@.len() as int) == toks_view(g@));
            }
            write_source(out, g, 0, g.len());
            out.push(c);
        },
    }
    assert(out@ =~= old(out)@ + tok_source(toks_view(t@)[k as int]));
}

/// Append the characters of `w`.
fn write_chars(out: &mut Vec<char>, w: &str)
    ensures
        final(out)@ == old(out)@ + w@,
{
    let n = w.unicode_len();
    let mut i: usize = 0;
    while i < n
        invariant
            n == w@.len(),
            i <= n,
            out@ == old(out)@ + w@.subrange(0, i as int),
        decreases n - i,
    {
        out.push(w.get_char(i));
        i = i + 1;
        assert(out@ =~= old(out)@ + w@.subrange(0, i as int));
    }
    assert(w@.subrange(0, n as int) =~= w@);
}

/// Whether `syn::parse_str::<syn::Expr>` accepts the source text.
pub uninterp spec fn syn_expr(src: Seq<char>) -> bool;

/// Whether `syn::Expr::parse_without_eager_brace` (the form read before a
/// `{` block, where a struct literal is not allowed) accepts the whole
/// source text.
pub uninterp spec fn syn_expr_no_struct(src: Seq<char>) -> bool;

/// Whether `syn::Pat::parse_single` accepts the whole source text.
pub uninterp spec fn syn_pat(src: Seq<char>) -> bool;

/// Whether `syn::parse_str::<syn::Stmt>` accepts the source text.
pub uninterp spec fn syn_stmt(src: Seq<char>) -> bool;

/// Calls `syn::parse_str::<syn::Expr>`, which lexes the text and parses
/// all of it as one expression. Trusted: the answer is `syn_expr` of the
/// text; syn's parse is a function of the text alone.
#[verifier::external_body]
pub(crate) fn parses_as_expr(src: &Vec<char>) -> (r: bool)
    ensures
        r == syn_expr(src@),
{
    syn::parse_str::<syn::Expr>(&src.iter().collect::<String>()).is_ok()
}

/// Calls `syn::Expr::parse_without_eager_brace` through
/// `syn::parse::Parser::parse_str`, which fails unless all of the text is
/// read. Trusted: the answer is `syn_expr_no_struct` of the text.
#[verifier::external_body]
pub(crate) fn parses_as_expr_no_struct(src: &Vec<char>) -> (r: bool)
    ensures
        r == syn_expr_no_struct(src@),
{
    let text: String = src.iter().collect();
    syn::parse::Parser::parse_str(syn::Expr::parse_without_eager_brace, &text).is_ok()
}

/// Calls `syn::Pat::parse_single` through `syn::parse::Parser::parse_str`.
/// Trusted: the answer is `syn_pat` of the text.
#[verifier::external_body]
pub(crate) fn parses_as_pat(src: &Vec<char>) -> (r: bool)
    ensures
        r == syn_pat(src@),
{
    let text: String = src.iter().collect();
    syn::parse::Parser::parse_str(syn::Pat::parse_single, &text).is_ok()
}

/// Calls `syn::parse_str::<syn::Stmt>`. Trusted: the answer is `syn_stmt`
/// of the text.
#[verifier::external_body]
pub(crate) fn parses_as_stmt(src: &Vec<char>) -> (r: bool)
    ensures
        r == syn_stmt(src@),
{
    syn::parse_str::<syn::Stmt>(&src.iter().collect::<String>()).is_ok()
}

/// Calls `proc_macro2::Span::call_site`.
#[verifier::external_body]
pub(crate) fn call_site() -> proc_macro2::Span {
    proc_macro2::Span::call_site()
}

/// `s` is a non-empty ASCII identifier: a letter or `_`, then letters,
/// digits or `_`, and not only digits.
pub open spec fn ascii_ident(s: Seq<char>) -> bool {
    &&& s.len() > 0
    &&& ('a' <= s[0] <= 'z' || 'A' <= s[0] <= 'Z' || s[0] == '_')
    &&& forall|k: int|
        0 <= k < s.len() ==> ('a' <= #[trigger] s[k] <= 'z' || 'A' <= s[k] <= 'Z' || '0' <= s[k]
            <= '9' || s[k] == '_')
}

/// A punctuation character that `proc_macro2::Punct::new` accepts.
pub open spec fn punct_char(c: char) -> bool {
    c == '!' || c == '#' || c == '$' || c == '%' || c == '&' || c == '\'' || c == '*' || c == '+'
        || c == ',' || c == '-' || c == '.' || c == '/' || c == ':' || c == ';' || c == '<' || c
        == '=' || c == '>' || c == '?' || c == '@' || c == '^' || c == '|' || c == '~'
}

/// An identifier token for `w`: its text and `proc_macro2::Ident::new(w,
/// call_site)`, made from the same `w`. Trusted: `Ident::new` makes the
/// identifier `w` (it panics on a string that is not one, which
/// `ascii_ident` leaves out).
#[verifier::external_body]
pub(crate) fn ident_tok(w: &str) -> (t: Tok)
    requires
        ascii_ident(w@),
    ensures
        tok_view(t) == TokView::Ident(w@),
{
    Tok::Ident(w.to_owned(), proc_macro2::Ident::new(w, proc_macro2::Span::call_site()))
}

/// A punctuation token for `c`, joined to the next token when `joint`: its
/// character and spacing, and `proc_macro2::Punct::new` of the same ones.
/// Trusted: `Punct::new` makes that punctuation (it panics on a character
/// outside `punct_char`).
#[verifier::external_body]
pub(crate) fn punct_tok(c: char, joint: bool) -> (t: Tok)
    requires
        punct_char(c),
    ensures
        tok_view(t) == TokView::Punct(c, joint),
{
    let spacing = if joint {
        proc_macro2::Spacing::Joint
    } else {
        proc_macro2::Spacing::Alone
    };
    Tok::Punct(c, joint, proc_macro2::Punct::new(c, spacing))
}

/// A string literal token whose value is `value`: `Literal::string(value)`
/// and its printed text. Trusted: `syn` reads the printed text as a string
/// literal whose value is `value` (how the value is escaped is left open:
/// it differs between `proc_macro2`'s backends).
#[verifier::external_body]
pub(crate) fn string_tok(value: &str) -> (t: Tok)
    ensures
        tok_view(t) == TokView::Str(value@),
{
    let l = proc_macro2::Literal::string(value);
    Tok::Lit(l.to_string(), l)
}

/// How the literal that `str::parse::<proc_macro2::Literal>` makes of
/// `text` prints, or `None` where it refuses `text`.
pub uninterp spec fn parsed_literal(text: Seq<char>) -> Option<Seq<char>>;

/// The literal token written `text`: `str::parse::<proc_macro2::Literal>`
/// of it and its printed text, or `None` where the parse is refused.
/// Trusted: the answer is `parsed_literal` of the text.
#[verifier::external_body]
pub(crate) fn literal_tok(text: &str) -> (t: Option<Tok>)
    ensures
        match parsed_literal(text@) {
            Some(p) => t matches Some(x) && tok_view(x) == lit_view(p),
            None => t is None,
        },
{
    match text.parse::<proc_macro2::Literal>() {
        Ok(l) => Some(Tok::Lit(l.to_string(), l)),
        Err(_) => None,
    }
}

/// The value of the string literal written `text` (what
/// `syn::LitStr::value` gives), or `None` where `syn` does not read `text`
/// as a string literal.
pub uninterp spec fn str_value(text: Seq<char>) -> Option<Seq<char>>;

/// Calls `syn::parse_str::<syn::LitStr>` on `text` and, where it succeeds,
/// `LitStr::value`. Trusted: the answer is `str_value` of the text.
#[verifier::external_body]
pub(crate) fn string_value(text: &str) -> (r: Option<String>)
    ensures
        match str_value(text@) {
            Some(v) => r matches Some(s) && s@ == v,
            None => r is None,
        },
{
    match syn::parse_str::<syn::LitStr>(text) {
        Ok(l) => Some(l.value()),
        Err(_) => None,
    }
}

/// Calls `proc_macro2::Ident::span`.
#[verifier::external_body]
pub(crate) fn ident_span(i: &proc_macro2::Ident) -> proc_macro2::Span {
    i.span()
}

/// Calls `proc_macro2::Punct::span`.
#[verifier::external_body]
pub(crate) fn punct_span(p: &proc_macro2::Punct) -> proc_macro2::Span {
    p.span()
}

/// Calls `proc_macro2::Literal::span`.
#[verifier::external_body]
pub(crate) fn literal_span(l: &proc_macro2::Literal) -> proc_macro2::Span {
    l.span()
}

/// The span of a token tree: a group's own span, a leaf's token's span.
pub(crate) fn span_of(t: &Tok) -> (r: proc_macro2::Span)
    ensures
        t matches Tok::Group(_, _, sp) ==> r == sp,
{
    match t {
        Tok::Ident(_, i) => ident_span(i),
        Tok::Punct(_, _, p) => punct_span(p),
        Tok::Lit(_, l) => literal_span(l),
        Tok::Group(_, _, sp) => *sp,
    }
}

} // verus!
