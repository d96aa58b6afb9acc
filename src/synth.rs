//! Assembles the wrapped function: the inner copy with its `?` rewritten and
//! its error type widened, and the outer function that calls it, logs the
//! outcome and hands back the inner copy's result with its error unwrapped.

use vstd::prelude::*;
use crate::inject::{error_slot, fold_level, wrap_error_slot, AddErrorInfo, Mode};
use crate::options::{ConfigError, ConfigFault, Options, OptionsModel, parse_options};
use crate::signature::{
    find_ident, layout, params_from, parse_params, parts_of, FnDef, FnParts, Param, ParamModel,
    ShapeError,
};
use crate::template::{
    bindings_view, build_log_statement, candidates, log_statement, names_view, select_bindings,
    Binding, LogBackend, LogLevel,
};
use crate::text::replace_all;
use crate::tokens::{
    copy_stream, copy_tree, extend, group, ident, lemma_view_stream_facts, path_sep, punct,
    push_path_sep, push_token, span_of, token_span, view_stream, Delimiter, Tok, TokenTree,
};

verus! {

/// `rest`, followed by a comma where it is not empty.
pub open spec fn comma_after(rest: Seq<Tok>, sp: usize) -> Seq<Tok> {
    if rest.len() == 0 {
        rest
    } else {
        rest.push(Tok::Punct(',', false, sp))
    }
}

/// The arguments with which the wrapper calls the inner copy: every
/// parameter but the receiver, as a binding's name or as its pattern.
pub open spec fn call_arguments(ps: Seq<ParamModel>, sp: usize) -> Seq<Tok>
    decreases ps.len(),
{
    if ps.len() == 0 {
        Seq::empty()
    } else {
        let rest = call_arguments(ps.subrange(0, ps.len() - 1), sp);
        match ps[ps.len() - 1] {
            ParamModel::Receiver => rest,
            ParamModel::Named(name, span) => comma_after(rest, sp).push(Tok::Ident(name, span)),
            ParamModel::Pattern(t) => comma_after(rest, sp) + t,
        }
    }
}

/// The names a success message may refer to: `self` for the receiver, and
/// each parameter bound to a plain name.
pub open spec fn parameter_names(ps: Seq<ParamModel>) -> Seq<Seq<char>>
    decreases ps.len(),
{
    if ps.len() == 0 {
        Seq::empty()
    } else {
        let rest = parameter_names(ps.subrange(0, ps.len() - 1));
        match ps[ps.len() - 1] {
            ParamModel::Receiver => rest.push("self"@),
            ParamModel::Named(name, _) => rest.push(name),
            ParamModel::Pattern(_) => rest,
        }
    }
}

/// One of the parameters is the receiver.
pub open spec fn has_receiver(ps: Seq<ParamModel>) -> bool {
    exists|i: int| 0 <= i < ps.len() && ps[i] is Receiver
}

/// How the wrapper passes its parameters on.
pub struct Arguments {
    pub has_receiver: bool,
    pub call: Vec<TokenTree>,
    pub names: Vec<String>,
}

/// Derives, from the parameters, the call arguments, the names, and whether
/// there is a receiver.
pub fn derive_arguments(ps: &Vec<Param>, sp: usize) -> (r: Arguments)
    ensures
        r.has_receiver == has_receiver(ps@.map_values(|p: Param| p@)),
        view_stream(r.call@) == call_arguments(ps@.map_values(|p: Param| p@), sp),
        names_view(r.names@) == parameter_names(ps@.map_values(|p: Param| p@)),
{
    let ghost pm = ps@.map_values(|p: Param| p@);
    let mut receiver = false;
    let mut call: Vec<TokenTree> = Vec::new();
    let mut names: Vec<String> = Vec::new();
    let mut i: usize = 0;
    while i < ps.len()
        invariant
            i <= ps@.len(),
            pm == ps@.map_values(|p: Param| p@),
            receiver == has_receiver(pm.subrange(0, i as int)),
            view_stream(call@) == call_arguments(pm.subrange(0, i as int), sp),
            names_view(names@) == parameter_names(pm.subrange(0, i as int)),
        decreases ps.len() - i,
    {
        let ghost pre = pm.subrange(0, i as int);
        let ghost next = pm.subrange(0, i + 1);
        assert(next.subrange(0, i as int) == pre);
        assert(next[i as int] == ps@[i as int]@);
        let ghost names0 = names@;
        match &ps[i] {
            Param::Receiver => {
                receiver = true;
                names.push(String::from_str("self"));
                assert(names_view(names@) == names_view(names0).push("self"@));
            },
            Param::Named { name, span } => {
                if call.len() > 0 {
                    push_token(&mut call, punct(',', false, sp));
                }
                push_token(&mut call, ident(name.as_str(), *span));
                names.push(name.clone());
                assert(names_view(names@) == names_view(names0).push(name@));
            },
            Param::Pattern { tokens } => {
                if call.len() > 0 {
                    push_token(&mut call, punct(',', false, sp));
                }
                extend(&mut call, copy_stream(tokens));
                assert(names_view(names@) == names_view(names0));
            },
        }
        proof {
            crate::tokens::lemma_view_stream_len(call@);
            if receiver {
                assert(has_receiver(next)) by {
                    if ps@[i as int]@ is Receiver {
                        assert(next[i as int] is Receiver);
                    } else {
                        let k = choose|k: int| 0 <= k < pre.len() && pre[k] is Receiver;
                        assert(next[k] is Receiver);
                    }
                }
            } else {
                assert forall|k: int| 0 <= k < next.len() implies !(next[k] is Receiver) by {
                    if k < i {
                        assert(next[k] == pre[k]);
                    }
                }
            }
        }
        i = i + 1;
    }
    assert(pm.subrange(0, ps@.len() as int) == pm);
    Arguments { has_receiver: receiver, call, names }
}

/// `name` without the `r#` that marks a raw identifier.
pub open spec fn bare_name(name: Seq<char>) -> Seq<char> {
    if name.len() >= 2 && name[0] == 'r' && name[1] == '#' {
        name.subrange(2, name.len() as int)
    } else {
        name
    }
}

/// The name of the inner copy of the function `name`.
pub open spec fn inner_name(name: Seq<char>) -> Seq<char> {
    "_wrap_match_inner_"@ + bare_name(name)
}

/// The name of the inner copy of the function `name`.
fn inner_name_of(name: &str) -> (r: String)
    ensures
        r@ == inner_name(name@),
{
    let mut r = String::from_str("_wrap_match_inner_");
    let n = name.unicode_len();
    if n >= 2 && name.get_char(0) == 'r' && name.get_char(1) == '#' {
        r.append(name.substring_char(2, n));
    } else {
        r.append(name);
    }
    r
}

/// The deprecation note on the inner copy.
pub open spec fn deprecation_note() -> Seq<char> {
    "inner copy of a wrapped function: call the wrapper instead"@
}

/// `#[doc(hidden)] #[deprecated = "..."] #[inline(always)]`: the inner copy is
/// hidden from documentation, warns where it is called, and is inlined.
pub open spec fn inner_attrs(sp: usize) -> Seq<Tok> {
    seq![
        Tok::Punct('#', false, sp),
        Tok::Group(
            Delimiter::Bracket,
            seq![
                Tok::Ident("doc"@, sp),
                Tok::Group(Delimiter::Parenthesis, seq![Tok::Ident("hidden"@, sp)], sp),
            ],
            sp,
        ),
        Tok::Punct('#', false, sp),
        Tok::Group(
            Delimiter::Bracket,
            seq![
                Tok::Ident("deprecated"@, sp),
                Tok::Punct('=', false, sp),
                Tok::Str(deprecation_note(), sp),
            ],
            sp,
        ),
        Tok::Punct('#', false, sp),
        Tok::Group(
            Delimiter::Bracket,
            seq![
                Tok::Ident("inline"@, sp),
                Tok::Group(Delimiter::Parenthesis, seq![Tok::Ident("always"@, sp)], sp),
            ],
            sp,
        ),
    ]
}

/// The inner copy: hidden attributes, no visibility, the declared qualifiers,
/// generics, parameters and `where` clause, the result type `output`, and the
/// body `body`.
pub open spec fn inner_definition(p: FnParts, output: Seq<Tok>, body: Seq<Tok>, sp: usize) -> Seq<
    Tok,
> {
    inner_attrs(sp) + p.qualifiers + seq![p.fn_token, Tok::Ident(inner_name(p.name), p.name_span)]
        + p.generics + seq![Tok::Group(Delimiter::Parenthesis, p.params, p.params_span)]
        + p.arrow_tokens + output + p.where_clause + seq![
        Tok::Group(Delimiter::Brace, body, p.body_span),
    ]
}

fn bracket_attr(out: &mut Vec<TokenTree>, inner: Vec<TokenTree>, sp: usize)
    ensures
        view_stream(final(out)@) == view_stream(old(out)@) + seq![
            Tok::Punct('#', false, sp),
            Tok::Group(Delimiter::Bracket, view_stream(inner@), sp),
        ],
{
    let ghost o0 = view_stream(out@);
    push_token(out, punct('#', false, sp));
    push_token(out, group(Delimiter::Bracket, inner, sp));
    assert(view_stream(out@) =~= o0 + seq![
        Tok::Punct('#', false, sp),
        Tok::Group(Delimiter::Bracket, view_stream(inner@), sp),
    ]);
}

/// `name(word)`.
fn call_like(name: &str, word: &str, sp: usize) -> (r: Vec<TokenTree>)
    ensures
        view_stream(r@) == seq![
            Tok::Ident(name@, sp),
            Tok::Group(Delimiter::Parenthesis, seq![Tok::Ident(word@, sp)], sp),
        ],
{
    let mut arg: Vec<TokenTree> = Vec::new();
    push_token(&mut arg, ident(word, sp));
    let mut out: Vec<TokenTree> = Vec::new();
    push_token(&mut out, ident(name, sp));
    push_token(&mut out, group(Delimiter::Parenthesis, arg, sp));
    assert(view_stream(out@) =~= seq![
        Tok::Ident(name@, sp),
        Tok::Group(Delimiter::Parenthesis, seq![Tok::Ident(word@, sp)], sp),
    ]);
    out
}

fn inner_attr_tokens(sp: usize) -> (r: Vec<TokenTree>)
    ensures
        view_stream(r@) == inner_attrs(sp),
{
    let mut out: Vec<TokenTree> = Vec::new();
    bracket_attr(&mut out, call_like("doc", "hidden", sp), sp);
    let mut dep: Vec<TokenTree> = Vec::new();
    push_token(&mut dep, ident("deprecated", sp));
    push_token(&mut dep, punct('=', false, sp));
    push_token(
        &mut dep,
        TokenTree::Str {
            value: String::from_str("inner copy of a wrapped function: call the wrapper instead"),
            span: sp,
        },
    );
    assert(view_stream(dep@) =~= seq![
        Tok::Ident("deprecated"@, sp),
        Tok::Punct('=', false, sp),
        Tok::Str(deprecation_note(), sp),
    ]);
    bracket_attr(&mut out, dep, sp);
    bracket_attr(&mut out, call_like("inline", "always", sp), sp);
    assert(view_stream(out@) =~= inner_attrs(sp));
    out
}

fn inner_definition_tokens(d: &FnDef, output: Vec<TokenTree>, body: Vec<TokenTree>, sp: usize) -> (r:
    Vec<TokenTree>)
    ensures
        view_stream(r@) == inner_definition(d@, view_stream(output@), view_stream(body@), sp),
{
    let mut out = inner_attr_tokens(sp);
    extend(&mut out, copy_stream(&d.qualifiers));
    push_token(&mut out, copy_tree(&d.fn_token));
    let name = inner_name_of(d.name.as_str());
    push_token(&mut out, TokenTree::Ident { name, span: d.name_span });
    extend(&mut out, copy_stream(&d.generics));
    push_token(&mut out, group(Delimiter::Parenthesis, copy_stream(&d.params), d.params_span));
    extend(&mut out, copy_stream(&d.arrow_tokens));
    extend(&mut out, output);
    extend(&mut out, copy_stream(&d.where_clause));
    push_token(&mut out, group(Delimiter::Brace, body, d.body_span));
    out
}

/// The call of the inner copy: through `self.` where there is a receiver,
/// followed by `.await` where the function is asynchronous.
pub open spec fn call_expr(p: FnParts, receiver: bool, is_async: bool, args: Seq<Tok>, sp: usize) -> Seq<
    Tok,
> {
    (if receiver {
        seq![Tok::Ident("self"@, sp), Tok::Punct('.', false, sp)]
    } else {
        Seq::empty()
    }) + seq![
        Tok::Ident(inner_name(p.name), p.name_span),
        Tok::Group(Delimiter::Parenthesis, args, sp),
    ] + (if is_async {
        seq![Tok::Punct('.', false, sp), Tok::Ident("await"@, sp)]
    } else {
        Seq::empty()
    })
}

/// `=>`.
pub open spec fn fat_arrow(sp: usize) -> Seq<Tok> {
    seq![Tok::Punct('=', true, sp), Tok::Punct('>', false, sp)]
}

/// What the outer function yields on success: `Ok(r)`, or nothing where the
/// result is disregarded.
pub open spec fn success_value(disregard: bool, sp: usize) -> Seq<Tok> {
    if disregard {
        Seq::empty()
    } else {
        seq![
            Tok::Ident("Ok"@, sp),
            Tok::Group(Delimiter::Parenthesis, seq![Tok::Ident("r"@, sp)], sp),
        ]
    }
}

/// What the outer function yields on failure: `Err(_error)`, the underlying
/// error, or nothing where the result is disregarded.
pub open spec fn failure_value(disregard: bool, sp: usize) -> Seq<Tok> {
    if disregard {
        Seq::empty()
    } else {
        seq![
            Tok::Ident("Err"@, sp),
            Tok::Group(Delimiter::Parenthesis, seq![Tok::Ident("_error"@, sp)], sp),
        ]
    }
}

/// `Ok(r) => { log; value }`.
pub open spec fn success_arm(log: Seq<Tok>, disregard: bool, sp: usize) -> Seq<Tok> {
    seq![
        Tok::Ident("Ok"@, sp),
        Tok::Group(Delimiter::Parenthesis, seq![Tok::Ident("r"@, sp)], sp),
    ] + fat_arrow(sp) + seq![Tok::Group(Delimiter::Brace, log + success_value(disregard, sp), sp)]
}

/// `::wrap_match::WrapMatchError::variant`.
pub open spec fn error_variant(variant: Seq<char>, sp: usize) -> Seq<Tok> {
    path_sep(sp) + seq![Tok::Ident("wrap_match"@, sp)] + path_sep(sp) + seq![
        Tok::Ident("WrapMatchError"@, sp),
    ] + path_sep(sp) + seq![Tok::Ident(variant, sp)]
}

/// `field: binding`.
pub open spec fn field_binding(field: Seq<char>, binding: Seq<char>, sp: usize) -> Seq<Tok> {
    seq![Tok::Ident(field, sp), Tok::Punct(':', false, sp), Tok::Ident(binding, sp)]
}

/// `::wrap_match::WrapMatchError::Diagnosed { line: _line, expr: _expr, inner: _error }`.
pub open spec fn diagnosed_pattern(sp: usize) -> Seq<Tok> {
    error_variant("Diagnosed"@, sp) + seq![
        Tok::Group(
            Delimiter::Brace,
            field_binding("line"@, "_line"@, sp) + seq![Tok::Punct(',', false, sp)] + field_binding(
                "expr"@,
                "_expr"@,
                sp,
            ) + seq![Tok::Punct(',', false, sp)] + field_binding("inner"@, "_error"@, sp),
            sp,
        ),
    ]
}

/// `::wrap_match::WrapMatchError::Bare { inner: _error }`.
pub open spec fn bare_pattern(sp: usize) -> Seq<Tok> {
    error_variant("Bare"@, sp) + seq![
        Tok::Group(Delimiter::Brace, field_binding("inner"@, "_error"@, sp), sp),
    ]
}

/// `match e { Diagnosed {...} => { with_info value } Bare {...} => { without_info value } }`.
pub open spec fn failure_body(with_info: Seq<Tok>, without_info: Seq<Tok>, disregard: bool, sp: usize) -> Seq<
    Tok,
> {
    seq![
        Tok::Ident("match"@, sp),
        Tok::Ident("e"@, sp),
        Tok::Group(
            Delimiter::Brace,
            diagnosed_pattern(sp) + fat_arrow(sp) + seq![
                Tok::Group(Delimiter::Brace, with_info + failure_value(disregard, sp), sp),
            ] + bare_pattern(sp) + fat_arrow(sp) + seq![
                Tok::Group(Delimiter::Brace, without_info + failure_value(disregard, sp), sp),
            ],
            sp,
        ),
    ]
}

/// `Err(e) => { ... }`.
pub open spec fn failure_arm(with_info: Seq<Tok>, without_info: Seq<Tok>, disregard: bool, sp: usize) -> Seq<
    Tok,
> {
    seq![
        Tok::Ident("Err"@, sp),
        Tok::Group(Delimiter::Parenthesis, seq![Tok::Ident("e"@, sp)], sp),
    ] + fat_arrow(sp) + seq![
        Tok::Group(Delimiter::Brace, failure_body(with_info, without_info, disregard, sp), sp),
    ]
}

/// `#[allow(deprecated)] match call { arms }`.
pub open spec fn match_expr(call: Seq<Tok>, arms: Seq<Tok>, sp: usize) -> Seq<Tok> {
    seq![
        Tok::Punct('#', false, sp),
        Tok::Group(
            Delimiter::Bracket,
            seq![
                Tok::Ident("allow"@, sp),
                Tok::Group(Delimiter::Parenthesis, seq![Tok::Ident("deprecated"@, sp)], sp),
            ],
            sp,
        ),
        Tok::Ident("match"@, sp),
    ] + call + seq![Tok::Group(Delimiter::Brace, arms, sp)]
}

fn push_fat_arrow(out: &mut Vec<TokenTree>, sp: usize)
    ensures
        view_stream(final(out)@) == view_stream(old(out)@) + fat_arrow(sp),
{
    let ghost o0 = view_stream(out@);
    push_token(out, punct('=', true, sp));
    push_token(out, punct('>', false, sp));
    assert(view_stream(out@) =~= o0 + fat_arrow(sp));
}

fn call_tokens(d: &FnDef, receiver: bool, is_async: bool, args: Vec<TokenTree>, sp: usize) -> (r: Vec<
    TokenTree,
>)
    ensures
        view_stream(r@) == call_expr(d@, receiver, is_async, view_stream(args@), sp),
{
    let mut out: Vec<TokenTree> = Vec::new();
    if receiver {
        push_token(&mut out, ident("self", sp));
        push_token(&mut out, punct('.', false, sp));
    }
    let name = inner_name_of(d.name.as_str());
    push_token(&mut out, TokenTree::Ident { name, span: d.name_span });
    push_token(&mut out, group(Delimiter::Parenthesis, args, sp));
    if is_async {
        push_token(&mut out, punct('.', false, sp));
        push_token(&mut out, ident("await", sp));
    }
    assert(view_stream(out@) =~= call_expr(d@, receiver, is_async, view_stream(args@), sp));
    out
}

fn ok_r(sp: usize) -> (r: Vec<TokenTree>)
    ensures
        view_stream(r@) == seq![
            Tok::Ident("Ok"@, sp),
            Tok::Group(Delimiter::Parenthesis, seq![Tok::Ident("r"@, sp)], sp),
        ],
{
    call_like("Ok", "r", sp)
}

fn success_arm_tokens(log: Vec<TokenTree>, disregard: bool, sp: usize) -> (r: Vec<TokenTree>)
    ensures
        view_stream(r@) == success_arm(view_stream(log@), disregard, sp),
{
    let mut body = log;
    let ghost b0 = view_stream(body@);
    if !disregard {
        extend(&mut body, ok_r(sp));
    }
    assert(view_stream(body@) =~= b0 + success_value(disregard, sp));
    let mut out = ok_r(sp);
    push_fat_arrow(&mut out, sp);
    push_token(&mut out, group(Delimiter::Brace, body, sp));
    assert(view_stream(out@) =~= success_arm(b0, disregard, sp));
    out
}

fn field_binding_tokens(out: &mut Vec<TokenTree>, field: &str, binding: &str, sp: usize)
    ensures
        view_stream(final(out)@) == view_stream(old(out)@) + field_binding(field@, binding@, sp),
{
    let ghost o0 = view_stream(out@);
    push_token(out, ident(field, sp));
    push_token(out, punct(':', false, sp));
    push_token(out, ident(binding, sp));
    assert(view_stream(out@) =~= o0 + field_binding(field@, binding@, sp));
}

fn error_variant_tokens(variant: &str, sp: usize) -> (r: Vec<TokenTree>)
    ensures
        view_stream(r@) == error_variant(variant@, sp),
{
    let mut out: Vec<TokenTree> = Vec::new();
    push_path_sep(&mut out, sp);
    push_token(&mut out, ident("wrap_match", sp));
    push_path_sep(&mut out, sp);
    push_token(&mut out, ident("WrapMatchError", sp));
    push_path_sep(&mut out, sp);
    push_token(&mut out, ident(variant, sp));
    assert(view_stream(out@) =~= error_variant(variant@, sp));
    out
}

fn diagnosed_pattern_tokens(sp: usize) -> (r: Vec<TokenTree>)
    ensures
        view_stream(r@) == diagnosed_pattern(sp),
{
    let mut fields: Vec<TokenTree> = Vec::new();
    field_binding_tokens(&mut fields, "line", "_line", sp);
    push_token(&mut fields, punct(',', false, sp));
    field_binding_tokens(&mut fields, "expr", "_expr", sp);
    push_token(&mut fields, punct(',', false, sp));
    field_binding_tokens(&mut fields, "inner", "_error", sp);
    assert(view_stream(fields@) =~= field_binding("line"@, "_line"@, sp) + seq![
        Tok::Punct(',', false, sp),
    ] + field_binding("expr"@, "_expr"@, sp) + seq![Tok::Punct(',', false, sp)] + field_binding(
        "inner"@,
        "_error"@,
        sp,
    ));
    let mut out = error_variant_tokens("Diagnosed", sp);
    push_token(&mut out, group(Delimiter::Brace, fields, sp));
    assert(view_stream(out@) =~= diagnosed_pattern(sp));
    out
}

fn bare_pattern_tokens(sp: usize) -> (r: Vec<TokenTree>)
    ensures
        view_stream(r@) == bare_pattern(sp),
{
    let mut fields: Vec<TokenTree> = Vec::new();
    field_binding_tokens(&mut fields, "inner", "_error", sp);
    let mut out = error_variant_tokens("Bare", sp);
    push_token(&mut out, group(Delimiter::Brace, fields, sp));
    assert(view_stream(out@) =~= bare_pattern(sp));
    out
}

fn push_failure_value(out: &mut Vec<TokenTree>, disregard: bool, sp: usize)
    ensures
        view_stream(final(out)@) == view_stream(old(out)@) + failure_value(disregard, sp),
{
    let ghost o0 = view_stream(out@);
    if !disregard {
        extend(out, call_like("Err", "_error", sp));
    }
    assert(view_stream(out@) =~= o0 + failure_value(disregard, sp));
}

fn failure_arm_tokens(with_info: Vec<TokenTree>, without_info: Vec<TokenTree>, disregard: bool, sp: usize) -> (r:
    Vec<TokenTree>)
    ensures
        view_stream(r@) == failure_arm(view_stream(with_info@), view_stream(without_info@), disregard, sp),
{
    let ghost wi = view_stream(with_info@);
    let ghost wo = view_stream(without_info@);
    let mut first = with_info;
    push_failure_value(&mut first, disregard, sp);
    let mut second = without_info;
    push_failure_value(&mut second, disregard, sp);
    let mut arms_v = diagnosed_pattern_tokens(sp);
    push_fat_arrow(&mut arms_v, sp);
    push_token(&mut arms_v, group(Delimiter::Brace, first, sp));
    extend(&mut arms_v, bare_pattern_tokens(sp));
    push_fat_arrow(&mut arms_v, sp);
    push_token(&mut arms_v, group(Delimiter::Brace, second, sp));
    let ghost av = view_stream(arms_v@);
    assert(av =~= diagnosed_pattern(sp) + fat_arrow(sp) + seq![
        Tok::Group(Delimiter::Brace, wi + failure_value(disregard, sp), sp),
    ] + bare_pattern(sp) + fat_arrow(sp) + seq![
        Tok::Group(Delimiter::Brace, wo + failure_value(disregard, sp), sp),
    ]);
    let mut body: Vec<TokenTree> = Vec::new();
    push_token(&mut body, ident("match", sp));
    push_token(&mut body, ident("e", sp));
    push_token(&mut body, group(Delimiter::Brace, arms_v, sp));
    assert(view_stream(body@) =~= failure_body(wi, wo, disregard, sp));
    let mut out = call_like("Err", "e", sp);
    push_fat_arrow(&mut out, sp);
    push_token(&mut out, group(Delimiter::Brace, body, sp));
    assert(view_stream(out@) =~= failure_arm(wi, wo, disregard, sp));
    out
}

fn match_tokens(call: Vec<TokenTree>, arms: Vec<TokenTree>, sp: usize) -> (r: Vec<TokenTree>)
    ensures
        view_stream(r@) == match_expr(view_stream(call@), view_stream(arms@), sp),
{
    let ghost c = view_stream(call@);
    let ghost a = view_stream(arms@);
    let mut out: Vec<TokenTree> = Vec::new();
    bracket_attr(&mut out, call_like("allow", "deprecated", sp), sp);
    push_token(&mut out, ident("match", sp));
    extend(&mut out, call);
    push_token(&mut out, group(Delimiter::Brace, arms, sp));
    assert(view_stream(out@) =~= match_expr(c, a, sp));
    out
}

/// The outer function: the declared attributes, visibility, qualifiers,
/// name, generics, parameters and `where` clause; the declared result type
/// unless the result is disregarded; and a body of `nested` then `call`.
pub open spec fn outer_definition(p: FnParts, disregard: bool, nested: Seq<Tok>, call: Seq<Tok>) -> Seq<
    Tok,
> {
    p.attrs + p.vis + p.qualifiers + seq![p.fn_token, Tok::Ident(p.name, p.name_span)] + p.generics
        + seq![Tok::Group(Delimiter::Parenthesis, p.params, p.params_span)] + (if disregard {
        Seq::empty()
    } else {
        p.arrow_tokens + p.output
    }) + p.where_clause + seq![Tok::Group(Delimiter::Brace, nested + call, p.body_span)]
}

/// The configuration with the function's name written in place of every
/// `{function}` placeholder.
pub open spec fn with_function_name(m: OptionsModel, name: Seq<char>) -> OptionsModel {
    OptionsModel {
        success_message: (replace_all(m.success_message.0, "{function}"@, name), m.success_message.1),
        error_message: (replace_all(m.error_message.0, "{function}"@, name), m.error_message.1),
        error_message_without_info: (
            replace_all(m.error_message_without_info.0, "{function}"@, name),
            m.error_message_without_info.1,
        ),
        ..m
    }
}


/// The placeholders of an error message where the line and expression are
/// known: `line`, `expr` and `error`.
pub open spec fn diagnosed_bindings(sp: usize) -> Seq<(Seq<char>, Seq<Tok>)> {
    seq![
        ("line"@, seq![Tok::Ident("_line"@, sp)]),
        ("expr"@, seq![Tok::Ident("_expr"@, sp)]),
        ("error"@, seq![Tok::Ident("_error"@, sp)]),
    ]
}

/// The placeholder of an error message where they are not: `error`.
pub open spec fn bare_bindings(sp: usize) -> Seq<(Seq<char>, Seq<Tok>)> {
    seq![("error"@, seq![Tok::Ident("_error"@, sp)])]
}

/// The function is `async`.
pub open spec fn is_async(p: FnParts) -> bool {
    find_ident(p.qualifiers, 0, p.qualifiers.len() as int, "async"@) < p.qualifiers.len()
}

/// Where `const` stands among the qualifiers; their length where it does not.
pub open spec fn const_index(p: FnParts) -> int {
    find_ident(p.qualifiers, 0, p.qualifiers.len() as int, "const"@)
}

/// The info-level call on success, against the parameter names; nothing
/// where success is not logged.
pub open spec fn success_log(m: OptionsModel, names: Seq<Seq<char>>, lb: LogBackend) -> Seq<Tok> {
    if m.log_success {
        log_statement(
            lb,
            LogLevel::Info,
            m.success_message.0,
            m.success_message.1,
            select_bindings(m.success_message.0, candidates(Seq::empty(), names, m.success_message.1)),
        )
    } else {
        Seq::empty()
    }
}

/// The error-level call where a `?` recorded its line and expression.
pub open spec fn diagnosed_log(m: OptionsModel, sp: usize, lb: LogBackend) -> Seq<Tok> {
    log_statement(
        lb,
        LogLevel::Error,
        m.error_message.0,
        m.error_message.1,
        select_bindings(m.error_message.0, candidates(diagnosed_bindings(sp), Seq::empty(), m.error_message.1)),
    )
}

/// The error-level call where no line and expression were recorded.
pub open spec fn bare_log(m: OptionsModel, sp: usize, lb: LogBackend) -> Seq<Tok> {
    log_statement(
        lb,
        LogLevel::Error,
        m.error_message_without_info.0,
        m.error_message_without_info.1,
        select_bindings(
            m.error_message_without_info.0,
            candidates(bare_bindings(sp), Seq::empty(), m.error_message_without_info.1),
        ),
    )
}

/// The two arms of the outer function's `match`.
pub open spec fn arms(m: OptionsModel, ps: Seq<ParamModel>, sp: usize, lb: LogBackend) -> Seq<Tok> {
    success_arm(success_log(m, parameter_names(ps), lb), m.disregard_result, sp) + failure_arm(
        diagnosed_log(m, sp, lb),
        bare_log(m, sp, lb),
        m.disregard_result,
        sp,
    )
}

/// The inner copy of `p` whose error type starts at `s` in its result type.
pub open spec fn inner_copy(p: FnParts, s: int, sp: usize) -> Seq<Tok> {
    inner_definition(
        p,
        wrap_error_slot(p.output, s, span_of(p.output[s])),
        fold_level(p.body, 0, Mode::Code),
        sp,
    )
}

/// What the function `p`, configured by `m0`, becomes: the outer function,
/// with the inner copy nested in its body, or, where there is a receiver,
/// standing before it as a sibling.
pub open spec fn expansion(p: FnParts, m0: OptionsModel, s: int, sp: usize, lb: LogBackend) -> Seq<
    Tok,
> {
    let m = with_function_name(m0, p.name);
    let ps = params_from(p.params, 0);
    let receiver = has_receiver(ps);
    let inner = inner_copy(p, s, sp);
    let call = call_expr(p, receiver, is_async(p), call_arguments(ps, sp), sp);
    let outer = outer_definition(
        p,
        m.disregard_result,
        if receiver {
            Seq::empty()
        } else {
            inner
        },
        match_expr(call, arms(m, ps, sp, lb), sp),
    );
    if receiver {
        inner + outer
    } else {
        outer
    }
}

/// Why the transformation failed.
pub enum TransformFault {
    Config(ConfigFault),
    NotAFunction(usize),
    UnsupportedReturnType(usize),
    ConstUnsupported(usize),
}

/// The transformation of the function `item` under the attribute arguments
/// `args`; `sp` is the span of the attribute.
pub open spec fn transform(args: Seq<Tok>, item: Seq<Tok>, sp: usize, lb: LogBackend) -> Result<
    Seq<Tok>,
    TransformFault,
> {
    match parse_options(args, sp) {
        Err(e) => Err(TransformFault::Config(e)),
        Ok(m) => match layout(item) {
            None => Err(TransformFault::NotAFunction(sp)),
            Some(l) => {
                let p = parts_of(item, l);
                match (if p.arrow {
                    error_slot(p.output)
                } else {
                    None
                }) {
                    None => Err(
                        TransformFault::UnsupportedReturnType(
                            if p.arrow && p.output.len() > 0 {
                                span_of(p.output[0])
                            } else {
                                p.name_span
                            },
                        ),
                    ),
                    Some((_, s)) => if const_index(p) < p.qualifiers.len() {
                        Err(TransformFault::ConstUnsupported(span_of(p.qualifiers[const_index(p)])))
                    } else {
                        Ok(expansion(p, m, s, sp, lb))
                    },
                }
            },
        },
    }
}

/// Why the transformation failed; each carries the span to report it at.
#[derive(Debug)]
pub enum WrapError {
    Config(ConfigError),
    Shape(ShapeError),
}

impl View for WrapError {
    type V = TransformFault;

    open spec fn view(&self) -> TransformFault {
        match *self {
            WrapError::Config(e) => TransformFault::Config(e@),
            WrapError::Shape(ShapeError::NotAFunction { span }) => TransformFault::NotAFunction(span),
            WrapError::Shape(ShapeError::UnsupportedReturnType { span }) => TransformFault::UnsupportedReturnType(span),
            WrapError::Shape(ShapeError::ConstUnsupported { span }) => TransformFault::ConstUnsupported(span),
        }
    }
}

fn single(name: &str, sp: usize) -> (r: Vec<TokenTree>)
    ensures
        view_stream(r@) == seq![Tok::Ident(name@, sp)],
{
    let mut v: Vec<TokenTree> = Vec::new();
    push_token(&mut v, ident(name, sp));
    assert(view_stream(v@) =~= seq![Tok::Ident(name@, sp)]);
    v
}

fn diagnosed_binding_list(sp: usize) -> (r: Vec<Binding>)
    ensures
        bindings_view(r@) == diagnosed_bindings(sp),
{
    let mut v: Vec<Binding> = Vec::new();
    v.push(Binding { name: String::from_str("line"), value: single("_line", sp) });
    v.push(Binding { name: String::from_str("expr"), value: single("_expr", sp) });
    v.push(Binding { name: String::from_str("error"), value: single("_error", sp) });
    assert(bindings_view(v@) =~= diagnosed_bindings(sp));
    v
}

fn bare_binding_list(sp: usize) -> (r: Vec<Binding>)
    ensures
        bindings_view(r@) == bare_bindings(sp),
{
    let mut v: Vec<Binding> = Vec::new();
    v.push(Binding { name: String::from_str("error"), value: single("_error", sp) });
    assert(bindings_view(v@) =~= bare_bindings(sp));
    v
}

fn arm_tokens(options: &Options, names: &Vec<String>, sp: usize, backend: LogBackend) -> (r: Vec<
    TokenTree,
>)
    ensures
        forall|ps: Seq<ParamModel>|
            parameter_names(ps) == names_view(names@) ==> view_stream(r@) == #[trigger] arms(
                options@,
                ps,
                sp,
                backend,
            ),
{
    let no_bindings: Vec<Binding> = Vec::new();
    let no_names: Vec<String> = Vec::new();
    proof {
        assert(bindings_view(no_bindings@) =~= Seq::<(Seq<char>, Seq<Tok>)>::empty());
        assert(names_view(no_names@) =~= Seq::<Seq<char>>::empty());
    }
    let log_ok = if options.log_success {
        build_log_statement(&options.success_message, &no_bindings, names, LogLevel::Info, backend)
    } else {
        Vec::new()
    };
    let log_diagnosed = build_log_statement(
        &options.error_message,
        &diagnosed_binding_list(sp),
        &no_names,
        LogLevel::Error,
        backend,
    );
    let log_bare = build_log_statement(
        &options.error_message_without_info,
        &bare_binding_list(sp),
        &no_names,
        LogLevel::Error,
        backend,
    );
    let disregard = options.disregard_result;
    let mut out = success_arm_tokens(log_ok, disregard, sp);
    extend(&mut out, failure_arm_tokens(log_diagnosed, log_bare, disregard, sp));
    out
}

fn outer_tokens(d: &FnDef, disregard: bool, nested: Vec<TokenTree>, call: Vec<TokenTree>) -> (r: Vec<
    TokenTree,
>)
    ensures
        view_stream(r@) == outer_definition(d@, disregard, view_stream(nested@), view_stream(call@)),
{
    let mut body_tokens = nested;
    extend(&mut body_tokens, call);
    let mut out = copy_stream(&d.attrs);
    extend(&mut out, copy_stream(&d.vis));
    extend(&mut out, copy_stream(&d.qualifiers));
    push_token(&mut out, copy_tree(&d.fn_token));
    push_token(&mut out, TokenTree::Ident { name: d.name.clone(), span: d.name_span });
    extend(&mut out, copy_stream(&d.generics));
    push_token(&mut out, group(Delimiter::Parenthesis, copy_stream(&d.params), d.params_span));
    let ghost o1 = view_stream(out@);
    if !disregard {
        extend(&mut out, copy_stream(&d.arrow_tokens));
        extend(&mut out, copy_stream(&d.output));
    }
    assert(view_stream(out@) =~= o1 + (if disregard {
        Seq::empty()
    } else {
        d@.arrow_tokens + d@.output
    }));
    extend(&mut out, copy_stream(&d.where_clause));
    push_token(&mut out, group(Delimiter::Brace, body_tokens, d.body_span));
    out
}

/// Assembles the expansion of `d`, whose rewritten result type is `output`.
fn expand(
    d: &FnDef,
    options: Options,
    output: Vec<TokenTree>,
    sp: usize,
    backend: LogBackend,
    Ghost(s): Ghost<int>,
) -> (r: Vec<TokenTree>)
    requires
        0 <= s < d@.output.len(),
        view_stream(output@) == wrap_error_slot(d@.output, s, span_of(d@.output[s])),
    ensures
        view_stream(r@) == expansion(d@, options@, s, sp, backend),
{
    let ghost p = d@;
    let ghost ps = params_from(p.params, 0);
    let ghost old_m = options@;
    proof {
        lemma_view_stream_facts(d.qualifiers@);
    }
    let mut options = options;
    let pass = AddErrorInfo;
    let q = d.qualifiers.len();
    let asynchronous = crate::signature::scan_ident(&d.qualifiers, 0, q, "async") < q;
    let params = parse_params(&d.params);
    let a = derive_arguments(&params, sp);
    options.replace_function_in_messages(d.name.clone());
    let body = pass.fold_block(&d.body);
    let inner = inner_definition_tokens(d, output, body, sp);
    let arms_v = arm_tokens(&options, &a.names, sp, backend);
    let call = call_tokens(d, a.has_receiver, asynchronous, a.call, sp);
    let matched = match_tokens(call, arms_v, sp);
    proof {
        let m = with_function_name(old_m, p.name);
        assert(options@ == m);
        assert(a.has_receiver == has_receiver(ps));
        assert(view_stream(inner@) == inner_copy(p, s, sp));
        assert(view_stream(arms_v@) == arms(m, ps, sp, backend));
        assert(view_stream(matched@) == match_expr(
            call_expr(p, has_receiver(ps), is_async(p), call_arguments(ps, sp), sp),
            arms(m, ps, sp, backend),
            sp,
        ));
    }
    if a.has_receiver {
        let mut out = inner;
        let empty: Vec<TokenTree> = Vec::new();
        assert(view_stream(empty@) =~= Seq::<Tok>::empty());
        extend(&mut out, outer_tokens(d, options.disregard_result, empty, matched));
        out
    } else {
        outer_tokens(d, options.disregard_result, inner, matched)
    }
}

/// Transforms the function `item` under the attribute arguments `args`. The
/// result is the outer function, which keeps the declared signature (without
/// its result type where the result is disregarded), calls the inner copy,
/// logs the outcome, and returns the inner copy's result with its error
/// unwrapped; and the inner copy, in which every `?` of the function's own
/// code records its line and expression. `call_site` is the span of the
/// attribute. Fails, emitting nothing, on a malformed configuration, on
/// tokens that are not a function, on a result type without an error type,
/// and on a `const` function, in that order.
pub fn wrap_match(
    args: &Vec<TokenTree>,
    item: &Vec<TokenTree>,
    call_site: usize,
    backend: LogBackend,
) -> (r: Result<Vec<TokenTree>, WrapError>)
    ensures
        match transform(view_stream(args@), view_stream(item@), call_site, backend) {
            Ok(t) => r matches Ok(o) && view_stream(o@) == t,
            Err(f) => r matches Err(e) && e@ == f,
        },
{
    let sp = call_site;
    let options = match Options::parse(args, sp) {
        Ok(o) => o,
        Err(e) => {
            return Err(WrapError::Config(e));
        },
    };
    let d = match FnDef::parse(item, sp) {
        Ok(d) => d,
        Err(e) => {
            return Err(WrapError::Shape(e));
        },
    };
    proof {
        lemma_view_stream_facts(d.output@);
        lemma_view_stream_facts(d.qualifiers@);
    }
    let pass = AddErrorInfo;
    let folded = if d.arrow {
        pass.fold_return_type(&d.output)
    } else {
        None
    };
    let output = match folded {
        Some(o) => o,
        None => {
            let span = if d.arrow && d.output.len() > 0 {
                token_span(&d.output[0])
            } else {
                d.name_span
            };
            return Err(WrapError::Shape(ShapeError::UnsupportedReturnType { span }));
        },
    };
    let ghost s = error_slot(d@.output)->Some_0.1;
    let q = d.qualifiers.len();
    let c = crate::signature::scan_ident(&d.qualifiers, 0, q, "const");
    if c < q {
        return Err(WrapError::Shape(ShapeError::ConstUnsupported { span: token_span(&d.qualifiers[c]) }));
    }
    Ok(expand(&d, options, output, sp, backend, Ghost(s)))
}

/// On failure the outer function returns `Err(_error)`, where `_error` is
/// bound to the underlying error in both arms of the match on the inner
/// copy's error, so no wrapper reaches the caller; where the result is
/// disregarded it returns nothing.
pub proof fn lemma_failure_returns_underlying_error(
    with_info: Seq<Tok>,
    without_info: Seq<Tok>,
    disregard: bool,
    sp: usize,
)
    ensures
        failure_body(with_info, without_info, disregard, sp)[2] == Tok::Group(
            Delimiter::Brace,
            diagnosed_pattern(sp) + fat_arrow(sp) + seq![
                Tok::Group(Delimiter::Brace, with_info + failure_value(disregard, sp), sp),
            ] + bare_pattern(sp) + fat_arrow(sp) + seq![
                Tok::Group(Delimiter::Brace, without_info + failure_value(disregard, sp), sp),
            ],
            sp,
        ),
        diagnosed_pattern(sp).last() == Tok::Group(
            Delimiter::Brace,
            field_binding("line"@, "_line"@, sp) + seq![Tok::Punct(',', false, sp)] + field_binding(
                "expr"@,
                "_expr"@,
                sp,
            ) + seq![Tok::Punct(',', false, sp)] + field_binding("inner"@, "_error"@, sp),
            sp,
        ),
        bare_pattern(sp).last() == Tok::Group(
            Delimiter::Brace,
            field_binding("inner"@, "_error"@, sp),
            sp,
        ),
        !disregard ==> failure_value(disregard, sp) == seq![
            Tok::Ident("Err"@, sp),
            Tok::Group(Delimiter::Parenthesis, seq![Tok::Ident("_error"@, sp)], sp),
        ],
        disregard ==> failure_value(disregard, sp).len() == 0,
{
}

/// With `disregard_result = true` the outer function declares no result type
/// and neither of its arms yields a value: callers see `()` whatever happens.
pub proof fn lemma_disregarded_result_is_unit(
    p: FnParts,
    m0: OptionsModel,
    ps: Seq<ParamModel>,
    sp: usize,
    lb: LogBackend,
)
    requires
        m0.disregard_result,
    ensures
        with_function_name(m0, p.name).disregard_result,
        forall|nested: Seq<Tok>, call: Seq<Tok>|
            #[trigger] outer_definition(p, true, nested, call) == p.attrs + p.vis + p.qualifiers
                + seq![p.fn_token, Tok::Ident(p.name, p.name_span)] + p.generics + seq![
                Tok::Group(Delimiter::Parenthesis, p.params, p.params_span),
            ] + p.where_clause + seq![Tok::Group(Delimiter::Brace, nested + call, p.body_span)],
        success_value(true, sp).len() == 0,
        failure_value(true, sp).len() == 0,
        arms(with_function_name(m0, p.name), ps, sp, lb) == success_arm(
            success_log(with_function_name(m0, p.name), parameter_names(ps), lb),
            true,
            sp,
        ) + failure_arm(
            diagnosed_log(with_function_name(m0, p.name), sp, lb),
            bare_log(with_function_name(m0, p.name), sp, lb),
            true,
            sp,
        ),
{
    assert forall|nested: Seq<Tok>, call: Seq<Tok>|
        #[trigger] outer_definition(p, true, nested, call) == p.attrs + p.vis + p.qualifiers + seq![
            p.fn_token,
            Tok::Ident(p.name, p.name_span),
        ] + p.generics + seq![Tok::Group(Delimiter::Parenthesis, p.params, p.params_span)]
            + p.where_clause + seq![Tok::Group(Delimiter::Brace, nested + call, p.body_span)] by {
        let e = Seq::<Tok>::empty();
        let pre = p.attrs + p.vis + p.qualifiers + seq![p.fn_token, Tok::Ident(p.name, p.name_span)]
            + p.generics + seq![Tok::Group(Delimiter::Parenthesis, p.params, p.params_span)];
        assert(pre + e == pre);
    }
}

/// With `log_success = false` the success arm makes no logging call: it only
/// yields the result.
pub proof fn lemma_silent_success(
    m0: OptionsModel,
    name: Seq<char>,
    names: Seq<Seq<char>>,
    sp: usize,
    lb: LogBackend,
)
    requires
        !m0.log_success,
    ensures
        success_log(with_function_name(m0, name), names, lb).len() == 0,
        success_arm(success_log(with_function_name(m0, name), names, lb), m0.disregard_result, sp)
            == seq![
            Tok::Ident("Ok"@, sp),
            Tok::Group(Delimiter::Parenthesis, seq![Tok::Ident("r"@, sp)], sp),
        ] + fat_arrow(sp) + seq![
            Tok::Group(Delimiter::Brace, success_value(m0.disregard_result, sp), sp),
        ],
{
    let e = Seq::<Tok>::empty();
    assert(e + success_value(m0.disregard_result, sp) == success_value(m0.disregard_result, sp));
}

/// A `const` function whose result type is `Result`-like is always refused,
/// so no definition is emitted for it; where the configuration is valid the
/// refusal is `ConstUnsupported` at the `const` token.
pub proof fn lemma_const_function_refused(args: Seq<Tok>, item: Seq<Tok>, sp: usize, lb: LogBackend)
    requires
        layout(item) is Some,
        parts_of(item, layout(item)->Some_0).arrow,
        error_slot(parts_of(item, layout(item)->Some_0).output) is Some,
        const_index(parts_of(item, layout(item)->Some_0)) < parts_of(
            item,
            layout(item)->Some_0,
        ).qualifiers.len(),
    ensures
        transform(args, item, sp, lb) is Err,
        parse_options(args, sp) is Ok ==> transform(args, item, sp, lb) == Err::<
            Seq<Tok>,
            TransformFault,
        >(
            TransformFault::ConstUnsupported(
                span_of(
                    parts_of(item, layout(item)->Some_0).qualifiers[const_index(
                        parts_of(item, layout(item)->Some_0),
                    )],
                ),
            ),
        ),
{
}

} // verus!
