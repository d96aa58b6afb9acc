//! A plain model of a Rust token stream: identifiers, punctuation, literals and
//! delimited groups, each carrying the number of the source span it came from.

use vstd::prelude::*;

verus! {

/// The delimiter of a group of tokens.
#[derive(Clone, Copy, Debug, PartialEq, Eq, Structural)]
pub enum Delimiter {
    Parenthesis,
    Brace,
    Bracket,
    Invisible,
}

/// One token tree; `span` numbers the source location that diagnostics and
/// `line!()` report for it (the front end keeps the table).
#[derive(Debug)]
pub enum TokenTree {
    Ident { name: String, span: usize },
    Punct { ch: char, joint: bool, span: usize },
    Literal { text: String, span: usize },
    /// A string literal that denotes `value`; the front end writes its text.
    Str { value: String, span: usize },
    Group { delimiter: Delimiter, stream: Vec<TokenTree>, span: usize },
}

/// The mathematical value of a token tree.
pub enum Tok {
    Ident(Seq<char>, usize),
    Punct(char, bool, usize),
    Literal(Seq<char>, usize),
    Str(Seq<char>, usize),
    Group(Delimiter, Seq<Tok>, usize),
}

/// The value of one token tree.
pub open spec fn view_tree(t: TokenTree) -> Tok
    decreases t,
{
    match t {
        TokenTree::Ident { name, span } => Tok::Ident(name@, span),
        TokenTree::Punct { ch, joint, span } => Tok::Punct(ch, joint, span),
        TokenTree::Literal { text, span } => Tok::Literal(text@, span),
        TokenTree::Str { value, span } => Tok::Str(value@, span),
        TokenTree::Group { delimiter, stream, span } => Tok::Group(
            delimiter,
            view_stream(stream@),
            span,
        ),
    }
}

/// The value of a sequence of token trees, element by element.
pub open spec fn view_stream(s: Seq<TokenTree>) -> Seq<Tok>
    decreases s,
{
    if s.len() == 0 {
        Seq::empty()
    } else {
        view_stream(s.subrange(0, s.len() - 1)).push(view_tree(s[s.len() - 1]))
    }
}

/// Pushing a tree pushes its value.
pub proof fn lemma_view_stream_push(s: Seq<TokenTree>, t: TokenTree)
    ensures
        view_stream(s.push(t)) == view_stream(s).push(view_tree(t)),
{
    assert(s.push(t).subrange(0, s.len() as int) == s);
}

/// Copies a token stream.
pub fn copy_stream(s: &Vec<TokenTree>) -> (r: Vec<TokenTree>)
    ensures
        view_stream(r@) == view_stream(s@),
    decreases s@,
{
    let mut out: Vec<TokenTree> = Vec::new();
    let mut i: usize = 0;
    while i < s.len()
        invariant
            i <= s.len(),
            view_stream(out@) == view_stream(s@.subrange(0, i as int)),
        decreases s.len() - i,
    {
        let t = copy_tree(&s[i]);
        proof {
            lemma_view_stream_push(out@, t);
            lemma_view_stream_push(s@.subrange(0, i as int), s@[i as int]);
            assert(s@.subrange(0, i as int).push(s@[i as int]) == s@.subrange(0, i + 1));
        }
        out.push(t);
        i = i + 1;
    }
    assert(s@.subrange(0, s.len() as int) == s@);
    out
}


/// A stream and its value have the same length.
pub proof fn lemma_view_stream_len(s: Seq<TokenTree>)
    ensures
        view_stream(s).len() == s.len(),
    decreases s.len(),
{
    if s.len() > 0 {
        lemma_view_stream_len(s.subrange(0, s.len() - 1));
    }
}

/// The `i`-th element of the value is the value of the `i`-th tree.
pub proof fn lemma_view_stream_index(s: Seq<TokenTree>, i: int)
    requires
        0 <= i < s.len(),
    ensures
        view_stream(s)[i] == view_tree(s[i]),
    decreases s.len(),
{
    lemma_view_stream_len(s.subrange(0, s.len() - 1));
    if i < s.len() - 1 {
        lemma_view_stream_index(s.subrange(0, s.len() - 1), i);
    }
}

/// The value of a concatenation is the concatenation of the values.
pub proof fn lemma_view_stream_concat(a: Seq<TokenTree>, b: Seq<TokenTree>)
    ensures
        view_stream(a + b) == view_stream(a) + view_stream(b),
    decreases b.len(),
{
    if b.len() == 0 {
        assert(a + b == a);
    } else {
        let b0 = b.subrange(0, b.len() - 1);
        lemma_view_stream_concat(a, b0);
        assert((a + b).subrange(0, (a + b).len() - 1) == a + b0);
    }
}

/// Appends `more` to `out`.
pub fn extend(out: &mut Vec<TokenTree>, more: Vec<TokenTree>)
    ensures
        view_stream(final(out)@) == view_stream(old(out)@) + view_stream(more@),
{
    let mut more = more;
    proof {
        lemma_view_stream_concat(out@, more@);
    }
    out.append(&mut more);
}

/// An identifier token.
pub fn ident(name: &str, span: usize) -> (r: TokenTree)
    ensures
        view_tree(r) == Tok::Ident(name@, span),
{
    TokenTree::Ident { name: name.to_owned(), span }
}

/// A punctuation token.
pub fn punct(ch: char, joint: bool, span: usize) -> (r: TokenTree)
    ensures
        view_tree(r) == Tok::Punct(ch, joint, span),
{
    TokenTree::Punct { ch, joint, span }
}

/// A delimited group.
pub fn group(delimiter: Delimiter, stream: Vec<TokenTree>, span: usize) -> (r: TokenTree)
    ensures
        view_tree(r) == Tok::Group(delimiter, view_stream(stream@), span),
{
    TokenTree::Group { delimiter, stream, span }
}

/// `::`, as two punctuation tokens.
pub open spec fn path_sep(span: usize) -> Seq<Tok> {
    seq![Tok::Punct(':', true, span), Tok::Punct(':', false, span)]
}

/// Appends `::` to `out`.
pub fn push_path_sep(out: &mut Vec<TokenTree>, span: usize)
    ensures
        view_stream(final(out)@) == view_stream(old(out)@) + path_sep(span),
{
    let ghost before = out@;
    out.push(punct(':', true, span));
    proof {
        lemma_view_stream_push(before, out@.last());
    }
    let ghost mid = out@;
    out.push(punct(':', false, span));
    proof {
        lemma_view_stream_push(mid, out@.last());
        assert(view_stream(out@) == view_stream(before) + path_sep(span));
    }
}

/// Appends one token to `out`.
pub fn push_token(out: &mut Vec<TokenTree>, t: TokenTree)
    ensures
        view_stream(final(out)@) == view_stream(old(out)@).push(view_tree(t)),
{
    proof {
        lemma_view_stream_push(out@, t);
    }
    out.push(t);
}

/// `t` is the identifier `name`.
pub open spec fn ident_is(t: Tok, name: Seq<char>) -> bool {
    t matches Tok::Ident(n, _) && n == name
}

/// `t` is the punctuation character `c`, joint to what follows or not.
pub open spec fn punct_is(t: Tok, c: char) -> bool {
    t matches Tok::Punct(ch, _, _) && ch == c
}

/// `t` is `c` and not joint to what follows.
pub open spec fn lone_punct_is(t: Tok, c: char) -> bool {
    t matches Tok::Punct(ch, joint, _) && ch == c && !joint
}

/// `t` is a group with delimiter `d`.
pub open spec fn group_is(t: Tok, d: Delimiter) -> bool {
    t matches Tok::Group(delim, _, _) && delim == d
}

/// The span of a token.
pub open spec fn span_of(t: Tok) -> usize {
    match t {
        Tok::Ident(_, s) => s,
        Tok::Punct(_, _, s) => s,
        Tok::Literal(_, s) => s,
        Tok::Str(_, s) => s,
        Tok::Group(_, _, s) => s,
    }
}

/// Whether `t` is the identifier `name`.
pub fn is_ident(t: &TokenTree, name: &str) -> (r: bool)
    ensures
        r == ident_is(view_tree(*t), name@),
{
    match t {
        TokenTree::Ident { name: n, .. } => crate::text::same_text(n.as_str(), name),
        _ => false,
    }
}

/// Whether `t` is the punctuation character `c`.
pub fn is_punct(t: &TokenTree, c: char) -> (r: bool)
    ensures
        r == punct_is(view_tree(*t), c),
{
    match t {
        TokenTree::Punct { ch, .. } => *ch == c,
        _ => false,
    }
}

/// Whether `t` is `c`, not joint to what follows.
pub fn is_lone_punct(t: &TokenTree, c: char) -> (r: bool)
    ensures
        r == lone_punct_is(view_tree(*t), c),
{
    match t {
        TokenTree::Punct { ch, joint, .. } => *ch == c && !*joint,
        _ => false,
    }
}

/// Whether `t` is a group delimited by `d`.
pub fn is_group(t: &TokenTree, d: Delimiter) -> (r: bool)
    ensures
        r == group_is(view_tree(*t), d),
{
    match t {
        TokenTree::Group { delimiter, .. } => *delimiter == d,
        _ => false,
    }
}

/// The span of `t`.
pub fn token_span(t: &TokenTree) -> (r: usize)
    ensures
        r == span_of(view_tree(*t)),
{
    match t {
        TokenTree::Ident { span, .. } => *span,
        TokenTree::Punct { span, .. } => *span,
        TokenTree::Literal { span, .. } => *span,
        TokenTree::Str { span, .. } => *span,
        TokenTree::Group { span, .. } => *span,
    }
}

/// Copies `s[from..to]`.
pub fn copy_range(s: &Vec<TokenTree>, from: usize, to: usize) -> (r: Vec<TokenTree>)
    requires
        from <= to <= s@.len(),
    ensures
        view_stream(r@) == view_stream(s@).subrange(from as int, to as int),
{
    let mut out: Vec<TokenTree> = Vec::new();
    let mut i: usize = from;
    proof {
        lemma_view_stream_len(s@);
    }
    while i < to
        invariant
            from <= i <= to <= s@.len(),
            view_stream(s@).len() == s@.len(),
            view_stream(out@) == view_stream(s@).subrange(from as int, i as int),
        decreases to - i,
    {
        let t = copy_tree(&s[i]);
        proof {
            lemma_view_stream_index(s@, i as int);
        }
        push_token(&mut out, t);
        i = i + 1;
    }
    out
}

/// Copies one token tree.
pub fn copy_tree(t: &TokenTree) -> (r: TokenTree)
    ensures
        view_tree(r) == view_tree(*t),
    decreases t,
{
    match t {
        TokenTree::Ident { name, span } => TokenTree::Ident { name: name.clone(), span: *span },
        TokenTree::Punct { ch, joint, span } => TokenTree::Punct { ch: *ch, joint: *joint, span: *span },
        TokenTree::Literal { text, span } => TokenTree::Literal { text: text.clone(), span: *span },
        TokenTree::Str { value, span } => TokenTree::Str { value: value.clone(), span: *span },
        TokenTree::Group { delimiter, stream, span } => TokenTree::Group {
            delimiter: *delimiter,
            stream: copy_stream(stream),
            span: *span,
        },
    }
}

/// The elements of `view_stream(s)` are the views of the elements of `s`.
pub proof fn lemma_view_stream_facts(s: Seq<TokenTree>)
    ensures
        view_stream(s).len() == s.len(),
        forall|k: int| 0 <= k < s.len() ==> #[trigger] view_stream(s)[k] == view_tree(s[k]),
{
    lemma_view_stream_len(s);
    assert forall|k: int| 0 <= k < s.len() implies #[trigger] view_stream(s)[k] == view_tree(
        s[k],
    ) by {
        lemma_view_stream_index(s, k);
    }
}

} // verus!
