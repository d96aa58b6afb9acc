//! The canonical one-line text of a token sequence: tokens written one after
//! the other, with a single space after each comma and between two adjacent
//! words, and no other whitespace.

use vstd::prelude::*;
use crate::text::push_char;
use crate::tokens::{lemma_view_stream_facts, punct_is, view_stream, view_tree, Delimiter, Tok, TokenTree};

verus! {

/// `t` is an identifier or a literal.
pub open spec fn is_word(t: Tok) -> bool {
    t is Ident || t is Literal || t is Str
}

/// What stands between two adjacent tokens.
pub open spec fn gap(a: Tok, b: Tok) -> Seq<char> {
    if punct_is(a, ',') || (is_word(a) && is_word(b)) {
        seq![' ']
    } else {
        Seq::empty()
    }
}

/// The text that opens a group.
pub open spec fn open_text(d: Delimiter) -> Seq<char> {
    match d {
        Delimiter::Parenthesis => seq!['('],
        Delimiter::Brace => seq!['{'],
        Delimiter::Bracket => seq!['['],
        Delimiter::Invisible => Seq::empty(),
    }
}

/// The text that closes a group.
pub open spec fn close_text(d: Delimiter) -> Seq<char> {
    match d {
        Delimiter::Parenthesis => seq![')'],
        Delimiter::Brace => seq!['}'],
        Delimiter::Bracket => seq![']'],
        Delimiter::Invisible => Seq::empty(),
    }
}

/// The text of one token.
pub open spec fn render_tok(t: Tok) -> Seq<char>
    decreases t,
{
    match t {
        Tok::Ident(name, _) => name,
        Tok::Punct(c, _, _) => seq![c],
        Tok::Literal(text, _) => text,
        Tok::Str(value, _) => seq!['"'] + value + seq!['"'],
        Tok::Group(d, s, _) => open_text(d) + render(s) + close_text(d),
    }
}

/// The canonical text of a token sequence.
pub open spec fn render(s: Seq<Tok>) -> Seq<char>
    decreases s,
{
    if s.len() == 0 {
        Seq::empty()
    } else if s.len() == 1 {
        render_tok(s[0])
    } else {
        render(s.subrange(0, s.len() - 1)) + gap(s[s.len() - 2], s[s.len() - 1]) + render_tok(
            s[s.len() - 1],
        )
    }
}

fn append_chars(out: &mut String, more: &Vec<char>)
    ensures
        final(out)@ == old(out)@ + more@,
{
    let mut i: usize = 0;
    while i < more.len()
        invariant
            i <= more@.len(),
            out@ == old(out)@ + more@.subrange(0, i as int),
        decreases more.len() - i,
    {
        push_char(out, more[i]);
        i = i + 1;
        assert(more@.subrange(0, i as int) == more@.subrange(0, i - 1).push(more@[i - 1]));
    }
    assert(more@.subrange(0, more@.len() as int) == more@);
}

fn is_word_token(t: &TokenTree) -> (r: bool)
    ensures
        r == is_word(view_tree(*t)),
{
    match t {
        TokenTree::Ident { .. } | TokenTree::Literal { .. } | TokenTree::Str { .. } => true,
        _ => false,
    }
}

/// Appends the text of `t` to `out`.
fn render_tree_into(out: &mut String, t: &TokenTree)
    ensures
        final(out)@ == old(out)@ + render_tok(view_tree(*t)),
    decreases t,
{
    match t {
        TokenTree::Ident { name, .. } => {
            let cs = crate::text::chars_of(name.as_str());
            append_chars(out, &cs);
        },
        TokenTree::Punct { ch, .. } => {
            push_char(out, *ch);
        },
        TokenTree::Literal { text, .. } => {
            let cs = crate::text::chars_of(text.as_str());
            append_chars(out, &cs);
        },
        TokenTree::Str { value, .. } => {
            push_char(out, '"');
            let cs = crate::text::chars_of(value.as_str());
            append_chars(out, &cs);
            push_char(out, '"');
        },
        TokenTree::Group { delimiter, stream, .. } => {
            let ghost o0 = out@;
            match delimiter {
                Delimiter::Parenthesis => push_char(out, '('),
                Delimiter::Brace => push_char(out, '{'),
                Delimiter::Bracket => push_char(out, '['),
                Delimiter::Invisible => {},
            }
            assert(out@ == o0 + open_text(*delimiter));
            let inner = render_stream(stream);
            let cs = crate::text::chars_of(inner.as_str());
            append_chars(out, &cs);
            let ghost o1 = out@;
            match delimiter {
                Delimiter::Parenthesis => push_char(out, ')'),
                Delimiter::Brace => push_char(out, '}'),
                Delimiter::Bracket => push_char(out, ']'),
                Delimiter::Invisible => {},
            }
            assert(out@ == o1 + close_text(*delimiter));
        },
    }
}

/// The canonical text of a token sequence.
pub fn render_stream(s: &Vec<TokenTree>) -> (r: String)
    ensures
        r@ == render(view_stream(s@)),
    decreases s,
{
    let ghost v = view_stream(s@);
    proof {
        lemma_view_stream_facts(s@);
    }
    let mut out = String::new();
    let n = s.len();
    let mut i: usize = 0;
    while i < n
        invariant
            i <= n,
            n == s@.len(),
            v == view_stream(s@),
            v.len() == n,
            forall|k: int| 0 <= k < n ==> #[trigger] v[k] == view_tree(s@[k]),
            out@ == render(v.subrange(0, i as int)),
        decreases n - i,
    {
        let ghost before = out@;
        if i > 0 {
            if crate::tokens::is_punct(&s[i - 1], ',') || (is_word_token(&s[i - 1]) && is_word_token(&s[i])) {
                push_char(&mut out, ' ');
            }
            assert(out@ == before + gap(v[i - 1], v[i as int]));
        }
        let ghost mid = out@;
        render_tree_into(&mut out, &s[i]);
        proof {
            let w = v.subrange(0, i + 1);
            assert(w.subrange(0, i as int) == v.subrange(0, i as int));
            if i == 0 {
                assert(render(w) == render_tok(v[0]));
            } else {
                assert(render(w) == render(v.subrange(0, i as int)) + gap(v[i - 1], v[i as int])
                    + render_tok(v[i as int]));
            }
        }
        i = i + 1;
    }
    assert(v.subrange(0, n as int) == v);
    out
}

/// A token with its span, and those of the tokens inside it, set to zero.
pub open spec fn unspan_tok(t: Tok) -> Tok
    decreases t,
{
    match t {
        Tok::Ident(name, _) => Tok::Ident(name, 0),
        Tok::Punct(c, joint, _) => Tok::Punct(c, joint, 0),
        Tok::Literal(text, _) => Tok::Literal(text, 0),
        Tok::Str(value, _) => Tok::Str(value, 0),
        Tok::Group(d, s, _) => Tok::Group(d, unspan(s), 0),
    }
}

/// A token sequence with every span set to zero: what is left is what was
/// written.
pub open spec fn unspan(s: Seq<Tok>) -> Seq<Tok>
    decreases s,
{
    if s.len() == 0 {
        Seq::empty()
    } else {
        unspan(s.subrange(0, s.len() - 1)).push(unspan_tok(s[s.len() - 1]))
    }
}

proof fn lemma_unspan_shape(s: Seq<Tok>)
    ensures
        unspan(s).len() == s.len(),
        forall|i: int| 0 <= i < s.len() ==> #[trigger] unspan(s)[i] == unspan_tok(s[i]),
    decreases s.len(),
{
    if s.len() > 0 {
        lemma_unspan_shape(s.subrange(0, s.len() - 1));
    }
}

proof fn lemma_render_tok_unspan(t: Tok)
    ensures
        render_tok(unspan_tok(t)) == render_tok(t),
    decreases t,
{
    if let Tok::Group(d, s, _) = t {
        lemma_render_unspan(s);
    }
}

proof fn lemma_render_unspan(s: Seq<Tok>)
    ensures
        render(unspan(s)) == render(s),
    decreases s,
{
    lemma_unspan_shape(s);
    if s.len() == 1 {
        lemma_render_tok_unspan(s[0]);
    } else if s.len() > 1 {
        let init = s.subrange(0, s.len() - 1);
        lemma_render_unspan(init);
        lemma_render_tok_unspan(s[s.len() - 1]);
        let u = unspan(s);
        assert(u.subrange(0, u.len() - 1) == unspan(init));
        lemma_unspan_shape(init);
        assert(u[u.len() - 2] == unspan_tok(s[s.len() - 2]));
        assert(gap(u[u.len() - 2], u[u.len() - 1]) == gap(s[s.len() - 2], s[s.len() - 1]));
    }
}

/// The text recorded for an expression depends on what was written alone, not
/// on where: two token sequences that differ only in their spans have the
/// same text, so the same expression rewritten twice records the same text.
pub proof fn lemma_text_ignores_position(a: Seq<Tok>, b: Seq<Tok>)
    requires
        unspan(a) == unspan(b),
    ensures
        render(a) == render(b),
{
    lemma_render_unspan(a);
    lemma_render_unspan(b);
}

/// `s` holds no line break.
pub open spec fn line_free(s: Seq<char>) -> bool {
    forall|i: int| 0 <= i < s.len() ==> s[i] != '\n'
}

/// No text inside `t` holds a line break.
pub open spec fn tok_line_free(t: Tok) -> bool
    decreases t,
{
    match t {
        Tok::Ident(name, _) => line_free(name),
        Tok::Punct(c, _, _) => c != '\n',
        Tok::Literal(text, _) => line_free(text),
        Tok::Str(value, _) => line_free(value),
        Tok::Group(_, s, _) => stream_line_free(s),
    }
}

/// No text inside the tokens of `s` holds a line break.
pub open spec fn stream_line_free(s: Seq<Tok>) -> bool
    decreases s,
{
    if s.len() == 0 {
        true
    } else {
        stream_line_free(s.subrange(0, s.len() - 1)) && tok_line_free(s[s.len() - 1])
    }
}

proof fn lemma_line_free_concat(a: Seq<char>, b: Seq<char>)
    requires
        line_free(a),
        line_free(b),
    ensures
        line_free(a + b),
{
    assert forall|i: int| 0 <= i < (a + b).len() implies (a + b)[i] != '\n' by {
        if i >= a.len() {
            assert((a + b)[i] == b[i - a.len()]);
        }
    }
}

proof fn lemma_render_tok_line_free(t: Tok)
    requires
        tok_line_free(t),
    ensures
        line_free(render_tok(t)),
    decreases t,
{
    match t {
        Tok::Str(value, _) => {
            lemma_line_free_concat(seq!['"'], value);
            lemma_line_free_concat(seq!['"'] + value, seq!['"']);
        },
        Tok::Group(d, s, _) => {
            lemma_render_line_free(s);
            lemma_line_free_concat(open_text(d), render(s));
            lemma_line_free_concat(open_text(d) + render(s), close_text(d));
        },
        _ => {},
    }
}

proof fn lemma_render_line_free(s: Seq<Tok>)
    requires
        stream_line_free(s),
    ensures
        line_free(render(s)),
    decreases s,
{
    if s.len() == 1 {
        lemma_render_tok_line_free(s[0]);
    } else if s.len() > 1 {
        let init = s.subrange(0, s.len() - 1);
        lemma_render_line_free(init);
        lemma_render_tok_line_free(s[s.len() - 1]);
        lemma_line_free_concat(render(init), gap(s[s.len() - 2], s[s.len() - 1]));
        lemma_line_free_concat(
            render(init) + gap(s[s.len() - 2], s[s.len() - 1]),
            render_tok(s[s.len() - 1]),
        );
    }
}

/// The recorded text is one line: where no identifier, literal or string in
/// the tokens holds a line break, neither does their text.
pub proof fn lemma_text_is_one_line(s: Seq<Tok>)
    requires
        stream_line_free(s),
    ensures
        line_free(render(s)),
{
    lemma_render_line_free(s);
}

} // verus!
