//! The pass that makes every `?` of a function body record where it failed,
//! and the rewrite of the declared error type to carry that record.

use vstd::prelude::*;
use crate::render::{lemma_text_ignores_position, render, render_stream, unspan};
use crate::signature::{angle_close, closes_angle, joint_colon, param_end};
use crate::text::{chars_of, occurs, occurs_in, same_text};
use crate::tokens::{
    copy_range, copy_tree, extend, group, group_is, ident, ident_is, is_group, is_ident, is_punct,
    lemma_view_stream_facts, punct, punct_is, push_path_sep, push_token, path_sep, span_of,
    token_span, view_stream, view_tree, Delimiter, Tok, TokenTree,
};

verus! {

/// Keywords after which no expression has ended.
pub open spec fn is_keyword(name: Seq<char>) -> bool {
    ||| name == "as"@
    ||| name == "async"@
    ||| name == "box"@
    ||| name == "break"@
    ||| name == "const"@
    ||| name == "continue"@
    ||| name == "dyn"@
    ||| name == "else"@
    ||| name == "enum"@
    ||| name == "extern"@
    ||| name == "fn"@
    ||| name == "for"@
    ||| name == "if"@
    ||| name == "impl"@
    ||| name == "in"@
    ||| name == "let"@
    ||| name == "loop"@
    ||| name == "match"@
    ||| name == "mod"@
    ||| name == "move"@
    ||| name == "mut"@
    ||| name == "pub"@
    ||| name == "ref"@
    ||| name == "return"@
    ||| name == "static"@
    ||| name == "struct"@
    ||| name == "trait"@
    ||| name == "type"@
    ||| name == "unsafe"@
    ||| name == "use"@
    ||| name == "where"@
    ||| name == "while"@
    ||| name == "yield"@
}

fn keyword(name: &str) -> (r: bool)
    ensures
        r == is_keyword(name@),
{
    same_text(name, "as")
        || same_text(name, "async")
        || same_text(name, "box")
        || same_text(name, "break")
        || same_text(name, "const")
        || same_text(name, "continue")
        || same_text(name, "dyn")
        || same_text(name, "else")
        || same_text(name, "enum")
        || same_text(name, "extern")
        || same_text(name, "fn")
        || same_text(name, "for")
        || same_text(name, "if")
        || same_text(name, "impl")
        || same_text(name, "in")
        || same_text(name, "let")
        || same_text(name, "loop")
        || same_text(name, "match")
        || same_text(name, "mod")
        || same_text(name, "move")
        || same_text(name, "mut")
        || same_text(name, "pub")
        || same_text(name, "ref")
        || same_text(name, "return")
        || same_text(name, "static")
        || same_text(name, "struct")
        || same_text(name, "trait")
        || same_text(name, "type")
        || same_text(name, "unsafe")
        || same_text(name, "use")
        || same_text(name, "where")
        || same_text(name, "while")
        || same_text(name, "yield")
}

/// An expression may end with `t`: a name that is not a keyword, a literal, a
/// group, or a `?`.
pub open spec fn ends_expr(t: Tok) -> bool {
    match t {
        Tok::Ident(name, _) => !is_keyword(name),
        Tok::Literal(..) => true,
        Tok::Str(..) => true,
        Tok::Group(..) => true,
        Tok::Punct(c, _, _) => c == '?',
    }
}

fn ends_expression(t: &TokenTree) -> (r: bool)
    ensures
        r == ends_expr(view_tree(*t)),
{
    match t {
        TokenTree::Ident { name, .. } => !keyword(name.as_str()),
        TokenTree::Literal { .. } => true,
        TokenTree::Str { .. } => true,
        TokenTree::Group { .. } => true,
        TokenTree::Punct { ch, .. } => *ch == '?',
    }
}

/// `t` is a `.` joint to what follows.
pub open spec fn joint_dot(t: Tok) -> bool {
    t matches Tok::Punct(c, joint, _) && c == '.' && joint
}

/// `v[k]` may stand inside a postfix chain: a path, a call, a method call, a
/// field, an index, a macro call or a `?`. A group in braces does so only
/// where a `.` or a `?` follows it.
pub open spec fn atom(v: Seq<Tok>, k: int) -> bool {
    &&& 0 <= k < v.len()
    &&& match v[k] {
        Tok::Ident(name, _) => !is_keyword(name),
        Tok::Literal(..) => true,
        Tok::Str(..) => true,
        Tok::Group(d, _, _) => d != Delimiter::Brace || (k + 1 < v.len() && (punct_is(v[k + 1], '.')
            || punct_is(v[k + 1], '?'))),
        Tok::Punct(c, joint, _) => {
            ||| c == '?'
            ||| (c == '.' && !joint && !(k > 0 && joint_dot(v[k - 1])))
            ||| (c == ':' && joint && k + 1 < v.len() && punct_is(v[k + 1], ':'))
            ||| (c == ':' && !joint && k > 0 && joint_colon(v[k - 1]))
            ||| (c == '!' && k > 0 && v[k - 1] is Ident && k + 1 < v.len() && v[k + 1] is Group)
        },
    }
}

/// The index of the `<` that `depth` closing angle brackets wait for,
/// scanning back from `k`; -1 where there is none.
pub open spec fn angle_open(v: Seq<Tok>, k: int, depth: int) -> int
    decreases k + 1,
{
    if k < 0 || k >= v.len() {
        -1
    } else if closes_angle(v, k) {
        angle_open(v, k - 1, depth + 1)
    } else if punct_is(v[k], '<') {
        if depth <= 1 {
            k
        } else {
            angle_open(v, k - 1, depth - 1)
        }
    } else if punct_is(v[k], ';') || group_is(v[k], Delimiter::Brace) {
        -1
    } else {
        angle_open(v, k - 1, depth)
    }
}

/// `v[m]` closes a turbofish `::<...>` whose `<` is at `j`.
pub open spec fn turbofish(v: Seq<Tok>, m: int, j: int) -> bool {
    &&& 1 <= m < v.len()
    &&& closes_angle(v, m)
    &&& j == angle_open(v, m - 1, 1)
    &&& 2 <= j <= m - 1
    &&& punct_is(v[j - 1], ':')
    &&& joint_colon(v[j - 2])
}

/// The `>` just after `m` closes a `<` that starts a qualified path such as
/// `<T as Trait>::f`: one where no expression has just ended.
pub open spec fn qualified_open(v: Seq<Tok>, m: int) -> bool {
    let j = angle_open(v, m, 1);
    &&& 0 <= j <= m < v.len()
    &&& punct_is(v[j], '<')
    &&& !(j > 0 && ends_expr(v[j - 1]))
}

/// `name` heads a block-like expression that ends with a group in braces.
pub open spec fn is_block_head(name: Seq<char>) -> bool {
    name == "match"@ || name == "if"@ || name == "while"@
}

/// Scanning back from `j`, the first index that holds a `;`, a group in
/// braces, or a keyword of [`is_block_head`]; -1 where there is none.
pub open spec fn head_scan(v: Seq<Tok>, j: int) -> int
    decreases j + 1,
{
    if j < 0 || j >= v.len() {
        -1
    } else if punct_is(v[j], ';') || group_is(v[j], Delimiter::Brace) || (v[j] matches Tok::Ident(
        name,
        _,
    ) && is_block_head(name)) {
        j
    } else {
        head_scan(v, j - 1)
    }
}

/// Where the block-like expression whose last group in braces is at `g`
/// starts: at `unsafe`, `loop`, `async` or `const` right before it; at the
/// `match`, `if` or `while` whose condition runs up to it; at the first `if`
/// of an `if ... else ...` chain. -1 where the group ends no such expression.
pub open spec fn block_start(v: Seq<Tok>, g: int) -> int
    decreases g,
{
    if g < 1 || g >= v.len() {
        -1
    } else if ident_is(v[g - 1], "else"@) {
        if g >= 2 && group_is(v[g - 2], Delimiter::Brace) {
            block_start(v, g - 2)
        } else {
            -1
        }
    } else if ident_is(v[g - 1], "unsafe"@) || ident_is(v[g - 1], "loop"@) || ident_is(
        v[g - 1],
        "async"@,
    ) || ident_is(v[g - 1], "const"@) {
        g - 1
    } else if g >= 2 && ident_is(v[g - 1], "move"@) && ident_is(v[g - 2], "async"@) {
        g - 2
    } else {
        let h = head_scan(v, g - 1);
        if 0 <= h < g && v[h] is Ident {
            if h >= 2 && ident_is(v[h], "if"@) && ident_is(v[h - 1], "else"@) && group_is(
                v[h - 2],
                Delimiter::Brace,
            ) && block_start(v, h - 2) >= 0 {
                block_start(v, h - 2)
            } else {
                h
            }
        } else {
            -1
        }
    }
}

/// The start of the postfix chain that ends just before index `k`; where the
/// chain reaches back to the braces of a block-like expression, the start of
/// that expression.
pub open spec fn chain_start(v: Seq<Tok>, k: int) -> int
    decreases k,
{
    if k <= 0 || k > v.len() {
        k
    } else if atom(v, k - 1) {
        if group_is(v[k - 1], Delimiter::Brace) && block_start(v, k - 1) >= 0 {
            block_start(v, k - 1)
        } else {
            chain_start(v, k - 1)
        }
    } else if k >= 2 && turbofish(v, k - 1, angle_open(v, k - 2, 1)) {
        chain_start(v, angle_open(v, k - 2, 1) - 2)
    } else if k >= 2 && k < v.len() && closes_angle(v, k - 1) && joint_colon(v[k])
        && qualified_open(v, k - 2) {
        angle_open(v, k - 2, 1)
    } else {
        k
    }
}

fn is_joint(t: &TokenTree, c: char) -> (r: bool)
    ensures
        r == (view_tree(*t) matches Tok::Punct(ch, joint, _) && ch == c && joint),
{
    match t {
        TokenTree::Punct { ch, joint, .. } => *ch == c && *joint,
        _ => false,
    }
}

fn is_atom(v: &Vec<TokenTree>, k: usize) -> (r: bool)
    requires
        k < v@.len(),
    ensures
        r == atom(view_stream(v@), k as int),
{
    proof {
        lemma_view_stream_facts(v@);
    }
    let n = v.len();
    match &v[k] {
        TokenTree::Ident { name, .. } => !keyword(name.as_str()),
        TokenTree::Literal { .. } => true,
        TokenTree::Str { .. } => true,
        TokenTree::Group { delimiter, .. } => *delimiter != Delimiter::Brace || (k + 1 < n && (
        is_punct(&v[k + 1], '.') || is_punct(&v[k + 1], '?'))),
        TokenTree::Punct { ch, joint, .. } => {
            let c = *ch;
            let j = *joint;
            c == '?' || (c == '.' && !j && !(k > 0 && is_joint(&v[k - 1], '.'))) || (c == ':' && j
                && k + 1 < n && is_punct(&v[k + 1], ':')) || (c == ':' && !j && k > 0 && is_joint(
                &v[k - 1],
                ':',
            )) || (c == '!' && k > 0 && is_ident_token(&v[k - 1]) && k + 1 < n && is_group_token(
                &v[k + 1],
            ))
        },
    }
}

fn is_ident_token(t: &TokenTree) -> (r: bool)
    ensures
        r == (view_tree(*t) is Ident),
{
    match t {
        TokenTree::Ident { .. } => true,
        _ => false,
    }
}

fn is_group_token(t: &TokenTree) -> (r: bool)
    ensures
        r == (view_tree(*t) is Group),
{
    match t {
        TokenTree::Group { .. } => true,
        _ => false,
    }
}

fn closes_angle_at(v: &Vec<TokenTree>, k: usize) -> (r: bool)
    requires
        k < v@.len(),
    ensures
        r == closes_angle(view_stream(v@), k as int),
{
    proof {
        lemma_view_stream_facts(v@);
    }
    is_punct(&v[k], '>') && !(k > 0 && is_joint(&v[k - 1], '-'))
}

/// `angle_open(v, k, 1)`, where `k + 1` is passed as `end`.
fn scan_angle_back(v: &Vec<TokenTree>, end: usize) -> (r: Option<usize>)
    requires
        end < v@.len(),
    ensures
        match r {
            Some(j) => j as int == angle_open(view_stream(v@), end - 1, 1) && j < end,
            None => angle_open(view_stream(v@), end - 1, 1) == -1,
        },
{
    let ghost w = view_stream(v@);
    proof {
        lemma_view_stream_facts(v@);
    }
    let n = v.len();
    let mut k: usize = end;
    let mut opens: usize = 0;
    let mut closes: usize = 1;
    while k > 0
        invariant
            k <= end < v@.len(),
            n == v@.len(),
            w == view_stream(v@),
            w.len() == v@.len(),
            forall|i: int| 0 <= i < v@.len() ==> #[trigger] w[i] == view_tree(v@[i]),
            opens + closes <= end - k + 1,
            closes >= 1,
            angle_open(w, end - 1, 1) == angle_open(w, k - 1, closes - opens),
        decreases k,
    {
        let i = k - 1;
        if closes_angle_at(v, i) {
            closes = closes + 1;
        } else if is_punct(&v[i], '<') {
            if closes <= opens + 1 {
                return Some(i);
            }
            opens = opens + 1;
        } else if is_punct(&v[i], ';') || is_group(&v[i], Delimiter::Brace) {
            return None;
        }
        k = i;
    }
    None
}

fn is_block_head_token(t: &TokenTree) -> (r: bool)
    ensures
        r == (view_tree(*t) matches Tok::Ident(name, _) && is_block_head(name)),
{
    is_ident(t, "match") || is_ident(t, "if") || is_ident(t, "while")
}

fn scan_head(v: &Vec<TokenTree>, end: usize) -> (r: Option<usize>)
    requires
        end <= v@.len(),
    ensures
        match r {
            Some(h) => h as int == head_scan(view_stream(v@), end - 1) && h < end,
            None => head_scan(view_stream(v@), end - 1) == -1,
        },
{
    let ghost w = view_stream(v@);
    proof {
        lemma_view_stream_facts(v@);
    }
    let mut k: usize = end;
    while k > 0
        invariant
            k <= end <= v@.len(),
            w == view_stream(v@),
            w.len() == v@.len(),
            forall|i: int| 0 <= i < v@.len() ==> #[trigger] w[i] == view_tree(v@[i]),
            head_scan(w, end - 1) == head_scan(w, k - 1),
        decreases k,
    {
        let i = k - 1;
        if is_punct(&v[i], ';') || is_group(&v[i], Delimiter::Brace) || is_block_head_token(&v[i]) {
            return Some(i);
        }
        k = i;
    }
    None
}

fn scan_block_start(v: &Vec<TokenTree>, g: usize) -> (r: Option<usize>)
    requires
        g < v@.len(),
    ensures
        match r {
            Some(h) => h as int == block_start(view_stream(v@), g as int) && h < g,
            None => block_start(view_stream(v@), g as int) == -1,
        },
    decreases g,
{
    proof {
        lemma_view_stream_facts(v@);
    }
    if g < 1 {
        return None;
    }
    if is_ident(&v[g - 1], "else") {
        if g >= 2 && is_group(&v[g - 2], Delimiter::Brace) {
            return scan_block_start(v, g - 2);
        }
        return None;
    }
    if is_ident(&v[g - 1], "unsafe") || is_ident(&v[g - 1], "loop") || is_ident(&v[g - 1], "async")
        || is_ident(&v[g - 1], "const") {
        return Some(g - 1);
    }
    if g >= 2 && is_ident(&v[g - 1], "move") && is_ident(&v[g - 2], "async") {
        return Some(g - 2);
    }
    match scan_head(v, g) {
        Some(h) => {
            if !is_ident_token(&v[h]) {
                return None;
            }
            if h >= 2 && is_ident(&v[h], "if") && is_ident(&v[h - 1], "else") && is_group(
                &v[h - 2],
                Delimiter::Brace,
            ) {
                match scan_block_start(v, h - 2) {
                    Some(o) => {
                        return Some(o);
                    },
                    None => {},
                }
            }
            Some(h)
        },
        None => None,
    }
}

/// The start of the postfix chain that ends just before index `k`.
fn scan_chain(v: &Vec<TokenTree>, k: usize) -> (r: usize)
    requires
        k <= v@.len(),
    ensures
        r == chain_start(view_stream(v@), k as int),
        r <= k,
{
    let ghost w = view_stream(v@);
    proof {
        lemma_view_stream_facts(v@);
    }
    let mut j: usize = k;
    while j > 0
        invariant
            j <= k <= v@.len(),
            w == view_stream(v@),
            w.len() == v@.len(),
            forall|i: int| 0 <= i < v@.len() ==> #[trigger] w[i] == view_tree(v@[i]),
            chain_start(w, k as int) == chain_start(w, j as int),
        decreases j,
    {
        if is_atom(v, j - 1) {
            if is_group(&v[j - 1], Delimiter::Brace) {
                match scan_block_start(v, j - 1) {
                    Some(h) => {
                        return h;
                    },
                    None => {},
                }
            }
            j = j - 1;
        } else if j >= 2 && closes_angle_at(v, j - 1) {
            match scan_angle_back(v, j - 1) {
                Some(o) => {
                    if o >= 2 && is_punct(&v[o - 1], ':') && is_joint(&v[o - 2], ':') {
                        j = o - 2;
                    } else if j < v.len() && is_joint(&v[j], ':') && is_punct(&v[o], '<') && !(o > 0
                        && ends_expression(&v[o - 1])) {
                        return o;
                    } else {
                        return j;
                    }
                },
                None => {
                    return j;
                },
            }
        } else {
            return j;
        }
    }
    j
}

/// `.map_err(|e| ::wrap_match::WrapMatchError::diagnosed(::core::line!(), "text", e.into()))`,
/// every token at span `sp`, so that `line!()` reports the line of that span.
pub open spec fn diagnose_call(text: Seq<char>, sp: usize) -> Seq<Tok> {
    seq![
        Tok::Punct('.', false, sp),
        Tok::Ident("map_err"@, sp),
        Tok::Group(Delimiter::Parenthesis, diagnose_closure(text, sp), sp),
    ]
}

/// `|e| ::wrap_match::WrapMatchError::diagnosed(...)`.
pub open spec fn diagnose_closure(text: Seq<char>, sp: usize) -> Seq<Tok> {
    seq![Tok::Punct('|', false, sp), Tok::Ident("e"@, sp), Tok::Punct('|', false, sp)]
        + path_sep(sp) + seq![Tok::Ident("wrap_match"@, sp)] + path_sep(sp) + seq![
        Tok::Ident("WrapMatchError"@, sp),
    ] + path_sep(sp) + seq![
        Tok::Ident("diagnosed"@, sp),
        Tok::Group(Delimiter::Parenthesis, diagnose_args(text, sp), sp),
    ]
}

/// `::core::line!(), "text", e.into()`.
pub open spec fn diagnose_args(text: Seq<char>, sp: usize) -> Seq<Tok> {
    path_sep(sp) + seq![Tok::Ident("core"@, sp)] + path_sep(sp) + seq![
        Tok::Ident("line"@, sp),
        Tok::Punct('!', false, sp),
        Tok::Group(Delimiter::Parenthesis, Seq::empty(), sp),
        Tok::Punct(',', false, sp),
        Tok::Str(text, sp),
        Tok::Punct(',', false, sp),
        Tok::Ident("e"@, sp),
        Tok::Punct('.', false, sp),
        Tok::Ident("into"@, sp),
        Tok::Group(Delimiter::Parenthesis, Seq::empty(), sp),
    ]
}

/// `v[i]` is the `?` operator: a `?` right after the end of an expression.
pub open spec fn try_site(v: Seq<Tok>, i: int) -> bool {
    0 < i < v.len() && punct_is(v[i], '?') && ends_expr(v[i - 1])
}

/// The canonical text of the expression that the `?` at `i` applies to.
pub open spec fn operand_text(v: Seq<Tok>, i: int) -> Seq<char> {
    render(v.subrange(chain_start(v, i), i))
}

/// The text a `?` records depends on the tokens of its operand as written
/// alone: two `?` whose operands are written alike record the same text,
/// wherever they stand and however often they are rewritten.
pub proof fn lemma_same_operand_same_text(v: Seq<Tok>, i: int, w: Seq<Tok>, j: int)
    requires
        unspan(v.subrange(chain_start(v, i), i)) == unspan(w.subrange(chain_start(w, j), j)),
    ensures
        operand_text(v, i) == operand_text(w, j),
{
    lemma_text_ignores_position(v.subrange(chain_start(v, i), i), w.subrange(chain_start(w, j), j));
}

/// What the `?` at `i` becomes: its operand's error mapped to one that records
/// the line and the operand's text, then the `?` itself.
pub open spec fn try_rewrite(v: Seq<Tok>, i: int) -> Seq<Tok> {
    diagnose_call(operand_text(v, i), span_of(v[chain_start(v, i)])) + seq![v[i]]
}

fn empty_parens(sp: usize) -> (r: TokenTree)
    ensures
        view_tree(r) == Tok::Group(Delimiter::Parenthesis, Seq::<Tok>::empty(), sp),
{
    let e: Vec<TokenTree> = Vec::new();
    group(Delimiter::Parenthesis, e, sp)
}

fn diagnose_tokens(text: &str, sp: usize) -> (r: Vec<TokenTree>)
    ensures
        view_stream(r@) == diagnose_call(text@, sp),
{
    let mut args: Vec<TokenTree> = Vec::new();
    push_path_sep(&mut args, sp);
    push_token(&mut args, ident("core", sp));
    push_path_sep(&mut args, sp);
    push_token(&mut args, ident("line", sp));
    push_token(&mut args, punct('!', false, sp));
    push_token(&mut args, empty_parens(sp));
    push_token(&mut args, punct(',', false, sp));
    push_token(&mut args, TokenTree::Str { value: text.to_owned(), span: sp });
    push_token(&mut args, punct(',', false, sp));
    push_token(&mut args, ident("e", sp));
    push_token(&mut args, punct('.', false, sp));
    push_token(&mut args, ident("into", sp));
    push_token(&mut args, empty_parens(sp));
    assert(view_stream(args@) =~= diagnose_args(text@, sp));
    let mut closure: Vec<TokenTree> = Vec::new();
    push_token(&mut closure, punct('|', false, sp));
    push_token(&mut closure, ident("e", sp));
    push_token(&mut closure, punct('|', false, sp));
    push_path_sep(&mut closure, sp);
    push_token(&mut closure, ident("wrap_match", sp));
    push_path_sep(&mut closure, sp);
    push_token(&mut closure, ident("WrapMatchError", sp));
    push_path_sep(&mut closure, sp);
    push_token(&mut closure, ident("diagnosed", sp));
    push_token(&mut closure, group(Delimiter::Parenthesis, args, sp));
    assert(view_stream(closure@) =~= diagnose_closure(text@, sp));
    let mut out: Vec<TokenTree> = Vec::new();
    push_token(&mut out, punct('.', false, sp));
    push_token(&mut out, ident("map_err", sp));
    push_token(&mut out, group(Delimiter::Parenthesis, closure, sp));
    assert(view_stream(out@) =~= diagnose_call(text@, sp));
    out
}

/// Where the scan of one level of a body stands.
#[derive(Clone, Copy, Debug, PartialEq, Eq, Structural)]
pub enum Mode {
    /// In the code of the function itself.
    Code,
    /// Inside the `|...|` of a closure.
    ClosureParams,
    /// In a closure's body, which runs to the next `;`, or to the next `,`
    /// outside the `depth` generic argument lists open in it.
    ClosureBody { depth: usize },
    /// In a nested function after its `fn`, which runs to its body or a `;`.
    Item,
}

/// `v[i]` is a `|` that opens a closure's parameters: no expression has just
/// ended (else it is a binary `|` or the first half of `||`), and it is not
/// the second half of a `||`.
pub open spec fn opens_closure(v: Seq<Tok>, i: int) -> bool {
    &&& 0 <= i < v.len()
    &&& punct_is(v[i], '|')
    &&& !(i > 0 && ends_expr(v[i - 1]))
    &&& !(i > 0 && joint_pipe(v[i - 1]))
}

/// `t` is a `|` joint to what follows: the first half of `||`.
pub open spec fn joint_pipe(t: Tok) -> bool {
    t matches Tok::Punct(c, joint, _) && c == '|' && joint
}

/// After an expression, a logical `||` leaves the scan in the function's own
/// code: neither of its two halves opens a closure.
pub proof fn lemma_logical_or_stays_in_code(v: Seq<Tok>, i: int)
    requires
        1 <= i && i + 1 < v.len(),
        ends_expr(v[i - 1]),
        joint_pipe(v[i]),
        punct_is(v[i + 1], '|'),
    ensures
        next_mode(v, i, Mode::Code) == Mode::Code,
        next_mode(v, i + 1, Mode::Code) == Mode::Code,
{
}

/// The group at `i` is kept as written: a macro's input, an attribute, or an
/// `async` block, whose `?` do not leave the function.
pub open spec fn kept_group(v: Seq<Tok>, i: int) -> bool {
    ||| (i >= 2 && punct_is(v[i - 1], '!') && v[i - 2] is Ident)
    ||| (i >= 1 && punct_is(v[i - 1], '#'))
    ||| (i >= 2 && punct_is(v[i - 1], '!') && punct_is(v[i - 2], '#'))
    ||| (i >= 1 && ident_is(v[i - 1], "async"@))
    ||| (i >= 2 && ident_is(v[i - 1], "move"@) && ident_is(v[i - 2], "async"@))
}

/// A `fn` right after `:` names a function pointer type, not a nested
/// function: the scan stays in the function's own code.
pub proof fn lemma_fn_pointer_type_stays_in_code(v: Seq<Tok>, i: int)
    requires
        1 <= i < v.len(),
        ident_is(v[i], "fn"@),
        punct_is(v[i - 1], ':'),
    ensures
        next_mode(v, i, Mode::Code) == Mode::Code,
{
    assert(!item_boundary(v, i - 1));
}

/// Inside a closure's body, a comma within open generic arguments does not
/// end the closure.
pub proof fn lemma_generic_comma_stays_in_closure(v: Seq<Tok>, i: int, depth: usize)
    requires
        0 <= i < v.len(),
        depth > 0,
        punct_is(v[i], ','),
    ensures
        next_mode(v, i, Mode::ClosureBody { depth }) == (Mode::ClosureBody { depth }),
{
}

/// `v[j]` may stand between the start of an item and its `fn`: `pub`, its
/// `(...)`, `const`, `async`, `unsafe`, `extern`, an ABI string after
/// `extern`, or `default`.
pub open spec fn item_qualifier(v: Seq<Tok>, j: int) -> bool {
    &&& 0 <= j < v.len()
    &&& {
        ||| (v[j] matches Tok::Ident(name, _) && (name == "pub"@ || name == "const"@ || name
            == "async"@ || name == "unsafe"@ || name == "extern"@ || name == "default"@))
        ||| (v[j] is Literal && j > 0 && ident_is(v[j - 1], "extern"@))
        ||| (group_is(v[j], Delimiter::Parenthesis) && j > 0 && ident_is(v[j - 1], "pub"@))
    }
}

/// An item may start right after index `j`: scanning back over qualifiers
/// reaches the start of the level, a `;`, a group in braces (a statement or
/// item before it) or one in brackets (an attribute).
pub open spec fn item_boundary(v: Seq<Tok>, j: int) -> bool
    decreases j + 1,
{
    if j < 0 || j >= v.len() {
        true
    } else if item_qualifier(v, j) {
        item_boundary(v, j - 1)
    } else {
        punct_is(v[j], ';') || group_is(v[j], Delimiter::Brace) || group_is(
            v[j],
            Delimiter::Bracket,
        )
    }
}

/// `v[i]` is the `fn` of a nested function definition, not of a function
/// pointer type such as `fn(u8) -> u8`.
pub open spec fn starts_nested_fn(v: Seq<Tok>, i: int) -> bool {
    0 <= i < v.len() && ident_is(v[i], "fn"@) && item_boundary(v, i - 1)
}

/// `v[i]` is a `<` that opens generic arguments inside a closure's body that
/// already holds `depth` open lists: one is open, or no expression has just
/// ended (after one, `<` compares).
pub open spec fn opens_generics(v: Seq<Tok>, i: int, depth: int) -> bool {
    0 <= i < v.len() && punct_is(v[i], '<') && (depth > 0 || !(i > 0 && ends_expr(v[i - 1])))
}

/// The mode after the token at `i`.
pub open spec fn next_mode(v: Seq<Tok>, i: int, m: Mode) -> Mode {
    match m {
        Mode::Code => if starts_nested_fn(v, i) {
            Mode::Item
        } else if opens_closure(v, i) {
            Mode::ClosureParams
        } else {
            Mode::Code
        },
        Mode::ClosureParams => if punct_is(v[i], '|') {
            Mode::ClosureBody { depth: 0 }
        } else {
            Mode::ClosureParams
        },
        Mode::ClosureBody { depth } => if punct_is(v[i], ';') || (depth == 0 && punct_is(v[i], ',')) {
            Mode::Code
        } else if opens_generics(v, i, depth as int) {
            Mode::ClosureBody { depth: (depth + 1) as usize }
        } else if depth > 0 && closes_angle(v, i) {
            Mode::ClosureBody { depth: (depth - 1) as usize }
        } else {
            Mode::ClosureBody { depth }
        },
        Mode::Item => if group_is(v[i], Delimiter::Brace) || punct_is(v[i], ';') {
            Mode::Code
        } else {
            Mode::Item
        },
    }
}

/// The tokens of one level of a body from `i` on, in mode `m`: every `?` that
/// follows the end of an expression in the function's own code is rewritten,
/// and so are the groups of that code; closures (from a `|` that
/// [`opens_closure`] to the next `;`, or `,` outside generic arguments),
/// nested functions (from a `fn` that [`starts_nested_fn`] to their body or a
/// `;`), macro input, attributes and `async` blocks are kept as written.
pub open spec fn fold_level(v: Seq<Tok>, i: int, m: Mode) -> Seq<Tok>
    decreases v, v.len() - i,
{
    if i < 0 || i >= v.len() {
        Seq::empty()
    } else {
        let here = if m == Mode::Code && try_site(v, i) {
            try_rewrite(v, i)
        } else if m == Mode::Code && !kept_group(v, i) && v[i] is Group {
            seq![Tok::Group(v[i]->Group_0, fold_level(v[i]->Group_1, 0, Mode::Code), v[i]->Group_2)]
        } else {
            seq![v[i]]
        };
        here + fold_level(v, i + 1, next_mode(v, i, m))
    }
}

fn try_site_at(v: &Vec<TokenTree>, i: usize) -> (r: bool)
    requires
        i < v@.len(),
    ensures
        r == try_site(view_stream(v@), i as int),
{
    proof {
        lemma_view_stream_facts(v@);
    }
    i > 0 && is_punct(&v[i], '?') && ends_expression(&v[i - 1])
}

fn kept_group_at(v: &Vec<TokenTree>, i: usize) -> (r: bool)
    requires
        i < v@.len(),
    ensures
        r == kept_group(view_stream(v@), i as int),
{
    proof {
        lemma_view_stream_facts(v@);
    }
    (i >= 2 && is_punct(&v[i - 1], '!') && is_ident_token(&v[i - 2])) || (i >= 1 && is_punct(
        &v[i - 1],
        '#',
    )) || (i >= 2 && is_punct(&v[i - 1], '!') && is_punct(&v[i - 2], '#')) || (i >= 1 && is_ident(
        &v[i - 1],
        "async",
    )) || (i >= 2 && is_ident(&v[i - 1], "move") && is_ident(&v[i - 2], "async"))
}

fn is_item_qualifier(v: &Vec<TokenTree>, j: usize) -> (r: bool)
    requires
        j < v@.len(),
    ensures
        r == item_qualifier(view_stream(v@), j as int),
{
    proof {
        lemma_view_stream_facts(v@);
    }
    let t = &v[j];
    (is_ident(t, "pub") || is_ident(t, "const") || is_ident(t, "async") || is_ident(t, "unsafe")
        || is_ident(t, "extern") || is_ident(t, "default")) || (is_literal_token(t) && j > 0
        && is_ident(&v[j - 1], "extern")) || (is_group(t, Delimiter::Parenthesis) && j > 0
        && is_ident(&v[j - 1], "pub"))
}

fn is_literal_token(t: &TokenTree) -> (r: bool)
    ensures
        r == (view_tree(*t) is Literal),
{
    match t {
        TokenTree::Literal { .. } => true,
        _ => false,
    }
}

/// Whether the `fn` at `i` starts a nested function definition.
fn starts_nested_fn_at(v: &Vec<TokenTree>, i: usize) -> (r: bool)
    requires
        i < v@.len(),
    ensures
        r == starts_nested_fn(view_stream(v@), i as int),
{
    let ghost w = view_stream(v@);
    proof {
        lemma_view_stream_facts(v@);
    }
    if !is_ident(&v[i], "fn") {
        return false;
    }
    let mut k: usize = i;
    while k > 0
        invariant
            k <= i < v@.len(),
            w == view_stream(v@),
            w.len() == v@.len(),
            forall|j: int| 0 <= j < v@.len() ==> #[trigger] w[j] == view_tree(v@[j]),
            item_boundary(w, i - 1) == item_boundary(w, k - 1),
            ident_is(w[i as int], "fn"@),
        decreases k,
    {
        let j = k - 1;
        assert(w[j as int] == view_tree(v@[j as int]));
        if !is_item_qualifier(v, j) {
            return is_punct(&v[j], ';') || is_group(&v[j], Delimiter::Brace) || is_group(
                &v[j],
                Delimiter::Bracket,
            );
        }
        k = j;
    }
    true
}

fn next_mode_at(v: &Vec<TokenTree>, i: usize, m: Mode) -> (r: Mode)
    requires
        i < v@.len(),
        m matches Mode::ClosureBody { depth } ==> depth <= i,
    ensures
        r == next_mode(view_stream(v@), i as int, m),
        r matches Mode::ClosureBody { depth } ==> depth <= i + 1,
{
    proof {
        lemma_view_stream_facts(v@);
    }
    let n = v.len();
    assert(i + 1 <= n);
    match m {
        Mode::Code => if starts_nested_fn_at(v, i) {
            Mode::Item
        } else if is_punct(&v[i], '|') && !(i > 0 && ends_expression(&v[i - 1])) && !(i > 0
            && is_joint(&v[i - 1], '|')) {
            Mode::ClosureParams
        } else {
            Mode::Code
        },
        Mode::ClosureParams => if is_punct(&v[i], '|') {
            Mode::ClosureBody { depth: 0 }
        } else {
            Mode::ClosureParams
        },
        Mode::ClosureBody { depth } => if is_punct(&v[i], ';') || (depth == 0 && is_punct(
            &v[i],
            ',',
        )) {
            Mode::Code
        } else if is_punct(&v[i], '<') && (depth > 0 || !(i > 0 && ends_expression(&v[i - 1]))) {
            Mode::ClosureBody { depth: depth + 1 }
        } else if depth > 0 && closes_angle_at(v, i) {
            Mode::ClosureBody { depth: depth - 1 }
        } else {
            Mode::ClosureBody { depth }
        },
        Mode::Item => if is_group(&v[i], Delimiter::Brace) || is_punct(&v[i], ';') {
            Mode::Code
        } else {
            Mode::Item
        },
    }
}

/// The pass that records, at every `?` of a function's own code, the line and
/// the text of the expression that failed.
pub struct AddErrorInfo;

impl AddErrorInfo {
    /// What the `?` at index `at` of `v` becomes.
    pub fn fold_expr_try(&self, v: &Vec<TokenTree>, at: usize) -> (r: Vec<TokenTree>)
        requires
            at < v@.len(),
        ensures
            view_stream(r@) == try_rewrite(view_stream(v@), at as int),
    {
        proof {
            lemma_view_stream_facts(v@);
        }
        let st = scan_chain(v, at);
        let operand = copy_range(v, st, at);
        let text = render_stream(&operand);
        let mut out = diagnose_tokens(text.as_str(), token_span(&v[st]));
        push_token(&mut out, copy_tree(&v[at]));
        out
    }

    /// Rewrites every `?` of the function's own code in the statements `v`, as
    /// [`fold_level`] states; closures, nested items, macro input, attributes
    /// and `async` blocks are kept as written.
    pub fn fold_block(&self, v: &Vec<TokenTree>) -> (r: Vec<TokenTree>)
        ensures
            view_stream(r@) == fold_level(view_stream(v@), 0, Mode::Code),
        decreases v@,
    {
        let ghost w = view_stream(v@);
        proof {
            lemma_view_stream_facts(v@);
        }
        let n = v.len();
        let mut out: Vec<TokenTree> = Vec::new();
        let mut m = Mode::Code;
        let mut i: usize = 0;
        while i < n
            invariant
                i <= n,
                n == v@.len(),
                w == view_stream(v@),
                w.len() == n,
                forall|k: int| 0 <= k < n ==> #[trigger] w[k] == view_tree(v@[k]),
                fold_level(w, 0, Mode::Code) == view_stream(out@) + fold_level(w, i as int, m),
                m matches Mode::ClosureBody { depth } ==> depth <= i,
            decreases n - i,
        {
            let ghost before = view_stream(out@);
            if m == Mode::Code && try_site_at(v, i) {
                let piece = self.fold_expr_try(v, i);
                extend(&mut out, piece);
            } else if m == Mode::Code && !kept_group_at(v, i) && is_group_token(&v[i]) {
                match &v[i] {
                    TokenTree::Group { delimiter, stream, span } => {
                        let inner = self.fold_block(stream);
                        push_token(&mut out, group(*delimiter, inner, *span));
                    },
                    _ => {},
                }
            } else {
                push_token(&mut out, copy_tree(&v[i]));
            }
            let m2 = next_mode_at(v, i, m);
            proof {
                assert(view_stream(out@) + fold_level(w, i + 1, m2) == before + fold_level(
                    w,
                    i as int,
                    m,
                ));
            }
            m = m2;
            i = i + 1;
        }
        out
    }
}

/// The first index from `i` on that holds the punctuation `c`, or the end of `v`.
pub open spec fn find_punct(v: Seq<Tok>, i: int, c: char) -> int
    decreases v.len() - i,
{
    if i < 0 || i >= v.len() {
        v.len() as int
    } else if punct_is(v[i], c) {
        i
    } else {
        find_punct(v, i + 1, c)
    }
}

/// The start of the last argument of the list `v` (split at commas outside
/// angle brackets), looking from the argument that starts at `i`.
pub open spec fn last_arg_start(v: Seq<Tok>, i: int) -> int
    decreases v.len() - i,
{
    let e = param_end(v, i, 0);
    if i < 0 || e < i || e >= v.len() {
        i
    } else {
        last_arg_start(v, e + 1)
    }
}

/// Where the error type stands in the result type `o`: `Some((lt, s))` where
/// `o` is a path whose last segment's name contains `Result`, `o[lt]` is the
/// `<` of that segment, its `>` is the last token of `o`, and the last of its
/// two or more arguments, the error type, starts at `s`.
pub open spec fn error_slot(o: Seq<Tok>) -> Option<(int, int)> {
    let n = o.len();
    let lt = find_punct(o, 0, '<');
    if n < 4 || lt < 1 || lt >= n - 1 || !closes_angle(o, n - 1) {
        None
    } else if !(forall|j: int| 0 <= j < lt ==> #[trigger] o[j] is Ident || punct_is(o[j], ':')) {
        None
    } else if !(o[lt - 1] matches Tok::Ident(name, _) && occurs_in(name, "Result"@)) {
        None
    } else if angle_close(o, lt + 1, 1) != n - 1 {
        None
    } else {
        let inner = o.subrange(lt + 1, n - 1);
        let s = last_arg_start(inner, 0);
        if s <= 0 || s >= inner.len() {
            None
        } else {
            Some((lt, lt + 1 + s))
        }
    }
}

/// `o` with its error type `E`, which starts at `s`, written as
/// `::wrap_match::WrapMatchError<E>`.
pub open spec fn wrap_error_slot(o: Seq<Tok>, s: int, sp: usize) -> Seq<Tok> {
    o.subrange(0, s) + path_sep(sp) + seq![Tok::Ident("wrap_match"@, sp)] + path_sep(sp) + seq![
        Tok::Ident("WrapMatchError"@, sp),
        Tok::Punct('<', false, sp),
    ] + o.subrange(s, o.len() - 1) + seq![Tok::Punct('>', false, sp), o[o.len() - 1]]
}

fn scan_punct(v: &Vec<TokenTree>, c: char) -> (r: usize)
    ensures
        r == find_punct(view_stream(v@), 0, c),
        r <= v@.len(),
{
    let ghost w = view_stream(v@);
    proof {
        lemma_view_stream_facts(v@);
    }
    let n = v.len();
    let mut i: usize = 0;
    while i < n
        invariant
            i <= n,
            n == v@.len(),
            w == view_stream(v@),
            w.len() == n,
            forall|k: int| 0 <= k < n ==> #[trigger] w[k] == view_tree(v@[k]),
            find_punct(w, 0, c) == find_punct(w, i as int, c),
        decreases n - i,
    {
        if is_punct(&v[i], c) {
            return i;
        }
        i = i + 1;
    }
    n
}

fn scan_last_arg(v: &Vec<TokenTree>) -> (r: usize)
    ensures
        r == last_arg_start(view_stream(v@), 0),
{
    let ghost w = view_stream(v@);
    proof {
        lemma_view_stream_facts(v@);
    }
    let n = v.len();
    let mut i: usize = 0;
    while i <= n
        invariant
            i <= n,
            n == v@.len(),
            w == view_stream(v@),
            w.len() == n,
            last_arg_start(w, 0) == last_arg_start(w, i as int),
        decreases n - i,
    {
        let e = crate::signature::scan_param_end(v, i);
        if e >= n {
            return i;
        }
        i = e + 1;
    }
    i
}

fn path_prefix(v: &Vec<TokenTree>, lt: usize) -> (r: bool)
    requires
        lt <= v@.len(),
    ensures
        r == (forall|j: int|
            0 <= j < lt ==> #[trigger] view_stream(v@)[j] is Ident || punct_is(view_stream(v@)[j], ':')),
{
    let ghost w = view_stream(v@);
    proof {
        lemma_view_stream_facts(v@);
    }
    let mut i: usize = 0;
    while i < lt
        invariant
            i <= lt <= v@.len(),
            w == view_stream(v@),
            w.len() == v@.len(),
            forall|k: int| 0 <= k < v@.len() ==> #[trigger] w[k] == view_tree(v@[k]),
            forall|j: int| 0 <= j < i ==> #[trigger] w[j] is Ident || punct_is(w[j], ':'),
        decreases lt - i,
    {
        if !(is_ident_token(&v[i]) || is_punct(&v[i], ':')) {
            assert(!(w[i as int] is Ident || punct_is(w[i as int], ':')));
            return false;
        }
        i = i + 1;
    }
    true
}

fn names_result(t: &TokenTree) -> (r: bool)
    ensures
        r == (view_tree(*t) matches Tok::Ident(name, _) && occurs_in(name, "Result"@)),
{
    match t {
        TokenTree::Ident { name, .. } => {
            let hay = chars_of(name.as_str());
            let needle = chars_of("Result");
            occurs(&hay, &needle)
        },
        _ => false,
    }
}

impl AddErrorInfo {
    /// Where the error type stands in the result type `o`.
    pub fn find_error_slot(&self, o: &Vec<TokenTree>) -> (r: Option<usize>)
        ensures
            match error_slot(view_stream(o@)) {
                Some((_, s)) => r == Some(s as usize),
                None => r is None,
            },
    {
        let ghost w = view_stream(o@);
        proof {
            lemma_view_stream_facts(o@);
        }
        let n = o.len();
        let lt = scan_punct(o, '<');
        if n < 4 || lt < 1 || lt >= n - 1 || !closes_angle_at(o, n - 1) {
            return None;
        }
        if !path_prefix(o, lt) {
            return None;
        }
        if !names_result(&o[lt - 1]) {
            return None;
        }
        if crate::signature::scan_angle(o, lt + 1) != n - 1 {
            return None;
        }
        let inner = copy_range(o, lt + 1, n - 1);
        let s = scan_last_arg(&inner);
        proof {
            lemma_view_stream_facts(inner@);
        }
        if s == 0 || s >= inner.len() {
            return None;
        }
        Some(lt + 1 + s)
    }

    /// Rewrites the result type `o` so that its error type `E` becomes
    /// `::wrap_match::WrapMatchError<E>`; `None` where `o` has no error type.
    pub fn fold_return_type(&self, o: &Vec<TokenTree>) -> (r: Option<Vec<TokenTree>>)
        ensures
            match error_slot(view_stream(o@)) {
                Some((_, s)) => r matches Some(t) && view_stream(t@) == wrap_error_slot(
                    view_stream(o@),
                    s,
                    span_of(view_stream(o@)[s]),
                ),
                None => r is None,
            },
    {
        proof {
            lemma_view_stream_facts(o@);
        }
        match self.find_error_slot(o) {
            None => None,
            Some(s) => {
                let n = o.len();
                let sp = token_span(&o[s]);
                let mut out = copy_range(o, 0, s);
                push_path_sep(&mut out, sp);
                push_token(&mut out, ident("wrap_match", sp));
                push_path_sep(&mut out, sp);
                push_token(&mut out, ident("WrapMatchError", sp));
                push_token(&mut out, punct('<', false, sp));
                extend(&mut out, copy_range(o, s, n - 1));
                push_token(&mut out, punct('>', false, sp));
                push_token(&mut out, copy_tree(&o[n - 1]));
                proof {
                    assert(view_stream(out@) =~= wrap_error_slot(view_stream(o@), s as int, sp));
                }
                Some(out)
            },
        }
    }
}

} // verus!
