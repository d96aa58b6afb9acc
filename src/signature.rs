//! The parts of a function definition that the transformation reads, cut out
//! of its tokens: attributes, visibility, qualifiers, name, generics,
//! parameters, result type, `where` clause and body.

use vstd::prelude::*;
use crate::tokens::{
    copy_range, copy_stream, group_is, ident_is, is_group, is_ident, is_punct,
    lemma_view_stream_facts, punct_is, view_stream, view_tree, Delimiter, Tok, TokenTree,
};

verus! {

/// The end of the outer attributes (`#[...]`) that start at `i`.
pub open spec fn attrs_end(v: Seq<Tok>, i: int) -> int
    decreases v.len() - i,
{
    if 0 <= i && i + 1 < v.len() && punct_is(v[i], '#') && group_is(v[i + 1], Delimiter::Bracket) {
        attrs_end(v, i + 2)
    } else {
        i
    }
}

/// The end of the visibility (`pub`, `pub(...)`, or nothing) that starts at `i`.
pub open spec fn vis_end(v: Seq<Tok>, i: int) -> int {
    if 0 <= i < v.len() && ident_is(v[i], "pub"@) {
        if i + 1 < v.len() && group_is(v[i + 1], Delimiter::Parenthesis) {
            i + 2
        } else {
            i + 1
        }
    } else {
        i
    }
}

/// The first index from `i` on and below `end` that holds the identifier
/// `name`; `end` where there is none.
pub open spec fn find_ident(v: Seq<Tok>, i: int, end: int, name: Seq<char>) -> int
    decreases end - i,
{
    if i < 0 || i >= end || i >= v.len() {
        end
    } else if ident_is(v[i], name) {
        i
    } else {
        find_ident(v, i + 1, end, name)
    }
}

/// `t` is a `-` joint to what follows.
pub open spec fn joint_minus(t: Tok) -> bool {
    t matches Tok::Punct(c, joint, _) && c == '-' && joint
}

/// `v[i]` is a `>` that does not end an arrow `->`.
pub open spec fn closes_angle(v: Seq<Tok>, i: int) -> bool {
    &&& 0 <= i < v.len()
    &&& punct_is(v[i], '>')
    &&& !(i > 0 && joint_minus(v[i - 1]))
}

/// The index of the `>` that closes `depth` open angle brackets, scanning from
/// `i`; `v.len()` where there is none.
pub open spec fn angle_close(v: Seq<Tok>, i: int, depth: int) -> int
    decreases v.len() - i,
{
    if i < 0 || i >= v.len() {
        v.len() as int
    } else if punct_is(v[i], '<') {
        angle_close(v, i + 1, depth + 1)
    } else if closes_angle(v, i) {
        if depth <= 1 {
            i
        } else {
            angle_close(v, i + 1, depth - 1)
        }
    } else {
        angle_close(v, i + 1, depth)
    }
}

/// Where each part of a function definition lies in its tokens.
pub struct Layout {
    pub attrs_end: int,
    pub vis_end: int,
    pub fn_at: int,
    pub params_at: int,
    pub arrow: bool,
    pub output_start: int,
    pub where_at: int,
    pub body_at: int,
}

/// `v[i]` and `v[i + 1]` are the arrow `->`.
pub open spec fn arrow_at(v: Seq<Tok>, i: int) -> bool {
    &&& 0 <= i && i + 1 < v.len()
    &&& joint_minus(v[i])
    &&& punct_is(v[i + 1], '>')
}

/// The layout of a function definition, or `None` where `v` is not one:
/// attributes, visibility, qualifiers up to `fn`, the name, generics in angle
/// brackets, the parameters in parentheses, `-> type` or nothing, a `where`
/// clause or nothing, and the body in braces as the last token.
pub open spec fn layout(v: Seq<Tok>) -> Option<Layout> {
    let a = attrs_end(v, 0);
    let b = vis_end(v, a);
    let body = v.len() - 1;
    let f = find_ident(v, b, body, "fn"@);
    if v.len() == 0 || !group_is(v[body], Delimiter::Brace) || f + 1 >= body || !(
    v[f + 1] is Ident) {
        None
    } else {
        let p = if punct_is(v[f + 2], '<') {
            angle_close(v, f + 3, 1) + 1
        } else {
            f + 2
        };
        if p >= body || !group_is(v[p], Delimiter::Parenthesis) {
            None
        } else {
            let arrow = p + 2 < body && arrow_at(v, p + 1);
            let o = if arrow {
                p + 3
            } else {
                p + 1
            };
            let w = find_ident(v, o, body, "where"@);
            if (!arrow && w != o) || (arrow && w == o) {
                None
            } else {
                Some(
                    Layout {
                        attrs_end: a,
                        vis_end: b,
                        fn_at: f,
                        params_at: p,
                        arrow,
                        output_start: o,
                        where_at: w,
                        body_at: body,
                    },
                )
            }
        }
    }
}

fn is_joint_minus(t: &TokenTree) -> (r: bool)
    ensures
        r == joint_minus(view_tree(*t)),
{
    match t {
        TokenTree::Punct { ch, joint, .. } => *ch == '-' && *joint,
        _ => false,
    }
}

fn scan_attrs(toks: &Vec<TokenTree>) -> (r: usize)
    ensures
        r == attrs_end(view_stream(toks@), 0),
        r <= toks@.len(),
{
    let ghost v = view_stream(toks@);
    proof {
        lemma_view_stream_facts(toks@);
    }
    let n = toks.len();
    let mut i: usize = 0;
    while n - i >= 2 && is_punct(&toks[i], '#') && is_group(&toks[i + 1], Delimiter::Bracket)
        invariant
            n == toks@.len(),
            v == view_stream(toks@),
            v.len() == n,
            forall|k: int| 0 <= k < n ==> #[trigger] v[k] == view_tree(toks@[k]),
            i <= n,
            attrs_end(v, 0) == attrs_end(v, i as int),
        decreases n - i,
    {
        i = i + 2;
    }
    i
}

fn scan_vis(toks: &Vec<TokenTree>, i: usize) -> (r: usize)
    requires
        i <= toks@.len(),
    ensures
        r == vis_end(view_stream(toks@), i as int),
        i <= r <= toks@.len(),
{
    proof {
        lemma_view_stream_facts(toks@);
    }
    if i < toks.len() && is_ident(&toks[i], "pub") {
        if i + 1 < toks.len() && is_group(&toks[i + 1], Delimiter::Parenthesis) {
            i + 2
        } else {
            i + 1
        }
    } else {
        i
    }
}

pub(crate) fn scan_ident(toks: &Vec<TokenTree>, i: usize, end: usize, name: &str) -> (r: usize)
    requires
        i <= end <= toks@.len(),
    ensures
        r == find_ident(view_stream(toks@), i as int, end as int, name@),
        i <= r <= end,
{
    let ghost v = view_stream(toks@);
    proof {
        lemma_view_stream_facts(toks@);
    }
    let mut j: usize = i;
    while j < end
        invariant
            i <= j <= end <= toks@.len(),
            v == view_stream(toks@),
            v.len() == toks@.len(),
            forall|k: int| 0 <= k < toks@.len() ==> #[trigger] v[k] == view_tree(toks@[k]),
            find_ident(v, i as int, end as int, name@) == find_ident(v, j as int, end as int, name@),
        decreases end - j,
    {
        if is_ident(&toks[j], name) {
            return j;
        }
        j = j + 1;
    }
    end
}

pub(crate) fn scan_angle(toks: &Vec<TokenTree>, i: usize) -> (r: usize)
    requires
        1 <= i <= toks@.len(),
    ensures
        r == angle_close(view_stream(toks@), i as int, 1),
        i <= r <= toks@.len(),
{
    let ghost v = view_stream(toks@);
    proof {
        lemma_view_stream_facts(toks@);
    }
    let n = toks.len();
    let mut j: usize = i;
    let mut depth: usize = 1;
    while j < n
        invariant
            1 <= i <= j <= n,
            n == toks@.len(),
            1 <= depth <= j - i + 1,
            v == view_stream(toks@),
            v.len() == n,
            forall|k: int| 0 <= k < n ==> #[trigger] v[k] == view_tree(toks@[k]),
            angle_close(v, i as int, 1) == angle_close(v, j as int, depth as int),
        decreases n - j,
    {
        if is_punct(&toks[j], '<') {
            depth = depth + 1;
        } else if is_punct(&toks[j], '>') && !(j > 0 && is_joint_minus(&toks[j - 1])) {
            if depth <= 1 {
                return j;
            }
            depth = depth - 1;
        }
        j = j + 1;
    }
    n
}

/// A function definition cut into the parts the transformation reads.
pub struct FnDef {
    /// The outer attributes, `#` and bracket group each.
    pub attrs: Vec<TokenTree>,
    /// `pub`, `pub(...)`, or nothing.
    pub vis: Vec<TokenTree>,
    /// What stands between the visibility and `fn`: `const`, `async`, `unsafe`, `extern "abi"`.
    pub qualifiers: Vec<TokenTree>,
    /// The `fn` keyword.
    pub fn_token: TokenTree,
    pub name: String,
    pub name_span: usize,
    /// The generic parameters with their angle brackets, or nothing.
    pub generics: Vec<TokenTree>,
    /// The parameter list, inside its parentheses.
    pub params: Vec<TokenTree>,
    pub params_span: usize,
    /// Whether the definition writes `-> type`.
    pub arrow: bool,
    /// The arrow's two tokens where there is one.
    pub arrow_tokens: Vec<TokenTree>,
    /// The result type, after the arrow.
    pub output: Vec<TokenTree>,
    /// The `where` clause, or nothing.
    pub where_clause: Vec<TokenTree>,
    /// The statements of the body, inside its braces.
    pub body: Vec<TokenTree>,
    pub body_span: usize,
}

/// The parts of a function definition, as values.
pub struct FnParts {
    pub attrs: Seq<Tok>,
    pub vis: Seq<Tok>,
    pub qualifiers: Seq<Tok>,
    pub fn_token: Tok,
    pub name: Seq<char>,
    pub name_span: usize,
    pub generics: Seq<Tok>,
    pub params: Seq<Tok>,
    pub params_span: usize,
    pub arrow: bool,
    pub arrow_tokens: Seq<Tok>,
    pub output: Seq<Tok>,
    pub where_clause: Seq<Tok>,
    pub body: Seq<Tok>,
    pub body_span: usize,
}

impl View for FnDef {
    type V = FnParts;

    open spec fn view(&self) -> FnParts {
        FnParts {
            attrs: view_stream(self.attrs@),
            vis: view_stream(self.vis@),
            qualifiers: view_stream(self.qualifiers@),
            fn_token: view_tree(self.fn_token),
            name: self.name@,
            name_span: self.name_span,
            generics: view_stream(self.generics@),
            params: view_stream(self.params@),
            params_span: self.params_span,
            arrow: self.arrow,
            arrow_tokens: view_stream(self.arrow_tokens@),
            output: view_stream(self.output@),
            where_clause: view_stream(self.where_clause@),
            body: view_stream(self.body@),
            body_span: self.body_span,
        }
    }
}

/// The parts of `v` that layout `l` marks.
pub open spec fn parts_of(v: Seq<Tok>, l: Layout) -> FnParts {
    FnParts {
        attrs: v.subrange(0, l.attrs_end),
        vis: v.subrange(l.attrs_end, l.vis_end),
        qualifiers: v.subrange(l.vis_end, l.fn_at),
        fn_token: v[l.fn_at],
        name: v[l.fn_at + 1]->Ident_0,
        name_span: v[l.fn_at + 1]->Ident_1,
        generics: v.subrange(l.fn_at + 2, l.params_at),
        params: v[l.params_at]->Group_1,
        params_span: v[l.params_at]->Group_2,
        arrow: l.arrow,
        arrow_tokens: v.subrange(l.params_at + 1, l.output_start),
        output: v.subrange(l.output_start, l.where_at),
        where_clause: v.subrange(l.where_at, l.body_at),
        body: v[l.body_at]->Group_1,
        body_span: v[l.body_at]->Group_2,
    }
}

/// Why a definition cannot be transformed; each carries the span to report it at.
#[derive(Debug)]
pub enum ShapeError {
    /// The tokens are not a function definition with a body.
    NotAFunction { span: usize },
    /// The result type is not a `Result`-like type with an error argument.
    UnsupportedReturnType { span: usize },
    /// The function is `const`.
    ConstUnsupported { span: usize },
}

impl FnDef {
    /// Cuts a function definition into its parts; fails where `toks` are not
    /// laid out as one, at the span `span`.
    pub fn parse(toks: &Vec<TokenTree>, span: usize) -> (r: Result<FnDef, ShapeError>)
        ensures
            match layout(view_stream(toks@)) {
                Some(l) => r matches Ok(d) && d@ == parts_of(view_stream(toks@), l),
                None => r matches Err(ShapeError::NotAFunction { span: s }) && s == span,
            },
    {
        let ghost v = view_stream(toks@);
        proof {
            lemma_view_stream_facts(toks@);
        }
        let n = toks.len();
        if n == 0 {
            return Err(ShapeError::NotAFunction { span });
        }
        let body_at = n - 1;
        let a = scan_attrs(toks);
        let b = scan_vis(toks, if a <= body_at { a } else { body_at });
        proof {
            if a > body_at {
                assert(attrs_end(v, 0) <= v.len());
            }
        }
        let f = scan_ident(toks, if b <= body_at { b } else { body_at }, body_at, "fn");
        if !is_group(&toks[body_at], Delimiter::Brace) || f + 1 >= body_at {
            return Err(ShapeError::NotAFunction { span });
        }
        let (name, name_span) = match &toks[f + 1] {
            TokenTree::Ident { name, span } => (name.clone(), *span),
            _ => {
                return Err(ShapeError::NotAFunction { span });
            },
        };
        let p = if is_punct(&toks[f + 2], '<') {
            let c = scan_angle(toks, f + 3);
            if c >= body_at {
                return Err(ShapeError::NotAFunction { span });
            }
            c + 1
        } else {
            f + 2
        };
        if p >= body_at || !is_group(&toks[p], Delimiter::Parenthesis) {
            return Err(ShapeError::NotAFunction { span });
        }
        let arrow = p + 2 < body_at && is_joint_minus(&toks[p + 1]) && is_punct(&toks[p + 2], '>');
        let o = if arrow {
            p + 3
        } else {
            p + 1
        };
        let w = scan_ident(toks, o, body_at, "where");
        if (!arrow && w != o) || (arrow && w == o) {
            return Err(ShapeError::NotAFunction { span });
        }
        let (params, params_span) = match &toks[p] {
            TokenTree::Group { stream, span, .. } => (copy_stream(stream), *span),
            _ => {
                return Err(ShapeError::NotAFunction { span });
            },
        };
        let (body, body_span) = match &toks[body_at] {
            TokenTree::Group { stream, span, .. } => (copy_stream(stream), *span),
            _ => {
                return Err(ShapeError::NotAFunction { span });
            },
        };
        let d = FnDef {
            attrs: copy_range(toks, 0, a),
            vis: copy_range(toks, a, b),
            qualifiers: copy_range(toks, b, f),
            fn_token: crate::tokens::copy_tree(&toks[f]),
            name,
            name_span,
            generics: copy_range(toks, f + 2, p),
            params,
            params_span,
            arrow,
            arrow_tokens: copy_range(toks, p + 1, o),
            output: copy_range(toks, o, w),
            where_clause: copy_range(toks, w, body_at),
            body,
            body_span,
        };
        Ok(d)
    }
}

/// The end of the parameter that starts at `i`: its first comma outside angle
/// brackets, or the end of `v`.
pub open spec fn param_end(v: Seq<Tok>, i: int, depth: int) -> int
    decreases v.len() - i,
{
    if i < 0 || i >= v.len() {
        v.len() as int
    } else if depth == 0 && punct_is(v[i], ',') {
        i
    } else if punct_is(v[i], '<') {
        param_end(v, i + 1, depth + 1)
    } else if closes_angle(v, i) {
        param_end(v, i + 1, depth - 1)
    } else {
        param_end(v, i + 1, depth)
    }
}

/// `t` is a `:` joint to what follows.
pub open spec fn joint_colon(t: Tok) -> bool {
    t matches Tok::Punct(c, joint, _) && c == ':' && joint
}

/// `v[j]` is a `:` that is not part of a `::`.
pub open spec fn single_colon(v: Seq<Tok>, j: int) -> bool {
    &&& 0 <= j < v.len()
    &&& punct_is(v[j], ':')
    &&& !(joint_colon(v[j]) && j + 1 < v.len() && punct_is(v[j + 1], ':'))
    &&& !(j > 0 && joint_colon(v[j - 1]))
}

/// The first single `:` from `i` on, or the end of `v`.
pub open spec fn colon_index(v: Seq<Tok>, i: int) -> int
    decreases v.len() - i,
{
    if i < 0 || i >= v.len() {
        v.len() as int
    } else if single_colon(v, i) {
        i
    } else {
        colon_index(v, i + 1)
    }
}

/// What a parameter contributes to a call of the function from its wrapper.
pub enum ParamModel {
    /// `self` in one of its forms.
    Receiver,
    /// A binding `name` or `mut name`.
    Named(Seq<char>, usize),
    /// Any other pattern, as written.
    Pattern(Seq<Tok>),
}

/// The parameter `e`: its attributes skipped, its pattern taken up to the
/// type's colon.
pub open spec fn param_model(e: Seq<Tok>) -> ParamModel {
    let k = attrs_end(e, 0);
    let c = colon_index(e, k);
    let pat = e.subrange(k, c);
    if find_ident(e, k, c, "self"@) < c {
        ParamModel::Receiver
    } else if pat.len() == 1 && pat[0] is Ident {
        ParamModel::Named(pat[0]->Ident_0, pat[0]->Ident_1)
    } else if pat.len() == 2 && ident_is(pat[0], "mut"@) && pat[1] is Ident {
        ParamModel::Named(pat[1]->Ident_0, pat[1]->Ident_1)
    } else {
        ParamModel::Pattern(pat)
    }
}

/// The parameters of the list `v` from index `i` on.
pub open spec fn params_from(v: Seq<Tok>, i: int) -> Seq<ParamModel>
    decreases v.len() - i,
{
    if i < 0 || i >= v.len() {
        Seq::empty()
    } else {
        let e = param_end(v, i, 0);
        if e < i {
            Seq::empty()
        } else if e >= v.len() {
            seq![param_model(v.subrange(i, e))]
        } else {
            seq![param_model(v.subrange(i, e))] + params_from(v, e + 1)
        }
    }
}

/// A parameter, as the wrapper passes it on.
pub enum Param {
    Receiver,
    Named { name: String, span: usize },
    Pattern { tokens: Vec<TokenTree> },
}

impl View for Param {
    type V = ParamModel;

    open spec fn view(&self) -> ParamModel {
        match *self {
            Param::Receiver => ParamModel::Receiver,
            Param::Named { name, span } => ParamModel::Named(name@, span),
            Param::Pattern { tokens } => ParamModel::Pattern(view_stream(tokens@)),
        }
    }
}

fn is_joint_colon(t: &TokenTree) -> (r: bool)
    ensures
        r == joint_colon(view_tree(*t)),
{
    match t {
        TokenTree::Punct { ch, joint, .. } => *ch == ':' && *joint,
        _ => false,
    }
}

pub(crate) fn scan_param_end(toks: &Vec<TokenTree>, i: usize) -> (r: usize)
    requires
        i <= toks@.len(),
    ensures
        r == param_end(view_stream(toks@), i as int, 0),
        i <= r <= toks@.len(),
{
    let ghost v = view_stream(toks@);
    proof {
        lemma_view_stream_facts(toks@);
    }
    let n = toks.len();
    let mut j: usize = i;
    let mut opens: usize = 0;
    let mut closes: usize = 0;
    while j < n
        invariant
            i <= j <= n,
            n == toks@.len(),
            opens + closes <= j - i,
            v == view_stream(toks@),
            v.len() == n,
            forall|k: int| 0 <= k < n ==> #[trigger] v[k] == view_tree(toks@[k]),
            param_end(v, i as int, 0) == param_end(v, j as int, opens - closes),
        decreases n - j,
    {
        if opens == closes && is_punct(&toks[j], ',') {
            return j;
        }
        if is_punct(&toks[j], '<') {
            opens = opens + 1;
        } else if is_punct(&toks[j], '>') && !(j > 0 && is_joint_minus(&toks[j - 1])) {
            closes = closes + 1;
        }
        j = j + 1;
    }
    n
}

fn scan_colon(toks: &Vec<TokenTree>, i: usize) -> (r: usize)
    requires
        i <= toks@.len(),
    ensures
        r == colon_index(view_stream(toks@), i as int),
        i <= r <= toks@.len(),
{
    let ghost v = view_stream(toks@);
    proof {
        lemma_view_stream_facts(toks@);
    }
    let n = toks.len();
    let mut j: usize = i;
    while j < n
        invariant
            i <= j <= n,
            n == toks@.len(),
            v == view_stream(toks@),
            v.len() == n,
            forall|k: int| 0 <= k < n ==> #[trigger] v[k] == view_tree(toks@[k]),
            colon_index(v, i as int) == colon_index(v, j as int),
        decreases n - j,
    {
        if is_punct(&toks[j], ':') && !(is_joint_colon(&toks[j]) && j + 1 < n && is_punct(&toks[j + 1], ':'))
            && !(j > 0 && is_joint_colon(&toks[j - 1])) {
            return j;
        }
        j = j + 1;
    }
    n
}

/// What the parameter `e` passes on.
fn param_of(e: &Vec<TokenTree>) -> (r: Param)
    ensures
        r@ == param_model(view_stream(e@)),
{
    let ghost v = view_stream(e@);
    proof {
        lemma_view_stream_facts(e@);
    }
    let k = scan_attrs(e);
    let c = scan_colon(e, k);
    if scan_ident(e, k, c, "self") < c {
        return Param::Receiver;
    }
    if c - k == 1 {
        if let TokenTree::Ident { name, span } = &e[k] {
            return Param::Named { name: name.clone(), span: *span };
        }
    }
    if c - k == 2 && is_ident(&e[k], "mut") {
        if let TokenTree::Ident { name, span } = &e[k + 1] {
            return Param::Named { name: name.clone(), span: *span };
        }
    }
    Param::Pattern { tokens: copy_range(e, k, c) }
}

/// Reads the parameter list `toks` (the inside of its parentheses).
pub fn parse_params(toks: &Vec<TokenTree>) -> (r: Vec<Param>)
    ensures
        r@.map_values(|p: Param| p@) == params_from(view_stream(toks@), 0),
{
    let ghost v = view_stream(toks@);
    proof {
        lemma_view_stream_facts(toks@);
    }
    let n = toks.len();
    let mut out: Vec<Param> = Vec::new();
    let mut i: usize = 0;
    while i < n
        invariant
            i <= n,
            n == toks@.len(),
            v == view_stream(toks@),
            v.len() == n,
            out@.map_values(|p: Param| p@) + params_from(v, i as int) == params_from(v, 0),
        decreases n - i,
    {
        let e = scan_param_end(toks, i);
        let entry = copy_range(toks, i, e);
        let p = param_of(&entry);
        let ghost before = out@;
        out.push(p);
        proof {
            assert(out@.map_values(|p: Param| p@) == before.map_values(|p: Param| p@).push(p@));
        }
        if e >= n {
            proof {
                assert(params_from(v, i as int) == seq![p@]);
                assert(params_from(v, n as int).len() == 0);
            }
            i = n;
        } else {
            assert(params_from(v, i as int) == seq![p@] + params_from(v, e + 1));
            i = e + 1;
        }
    }
    assert(params_from(v, i as int).len() == 0);
    out
}

} // verus!
