//! Message templates: which placeholders a template names, and the logging
//! statement that passes exactly those bindings to the logger.

use vstd::prelude::*;
use crate::text::{chars_of, occurs, occurs_in};
use crate::tokens::{
    copy_stream, extend, group, ident, path_sep, punct, push_path_sep, push_token, view_stream,
    Delimiter, Tok, TokenTree,
};

verus! {

/// The number of placeholder forms that count as a reference to a name.
pub const FORM_COUNT: usize = 12;

/// What may follow `{name` to close a placeholder: bare, debug, pretty debug,
/// lower and upper hexadecimal debug, lower and upper hexadecimal, octal,
/// binary, pointer, and lower and upper scientific.
pub open spec fn form_suffix(k: int) -> Seq<char> {
    if k == 0 {
        seq!['}']
    } else if k == 1 {
        seq![':', '?', '}']
    } else if k == 2 {
        seq![':', '#', '?', '}']
    } else if k == 3 {
        seq![':', 'x', '?', '}']
    } else if k == 4 {
        seq![':', 'X', '?', '}']
    } else if k == 5 {
        seq![':', 'x', '}']
    } else if k == 6 {
        seq![':', 'X', '}']
    } else if k == 7 {
        seq![':', 'o', '}']
    } else if k == 8 {
        seq![':', 'b', '}']
    } else if k == 9 {
        seq![':', 'p', '}']
    } else if k == 10 {
        seq![':', 'e', '}']
    } else {
        seq![':', 'E', '}']
    }
}

/// The placeholder `{name...}` in its `k`-th form.
pub open spec fn reference_form(name: Seq<char>, k: int) -> Seq<char> {
    seq!['{'] + name + form_suffix(k)
}

/// The template names `name` in one of the recognised placeholder forms.
pub open spec fn references(template: Seq<char>, name: Seq<char>) -> bool {
    exists|k: int| 0 <= k < FORM_COUNT && occurs_in(template, #[trigger] reference_form(name, k))
}

fn form_suffix_chars(k: usize) -> (r: Vec<char>)
    requires
        k < FORM_COUNT,
    ensures
        r@ == form_suffix(k as int),
{
    if k == 0 {
        vec!['}']
    } else if k == 1 {
        vec![':', '?', '}']
    } else if k == 2 {
        vec![':', '#', '?', '}']
    } else if k == 3 {
        vec![':', 'x', '?', '}']
    } else if k == 4 {
        vec![':', 'X', '?', '}']
    } else if k == 5 {
        vec![':', 'x', '}']
    } else if k == 6 {
        vec![':', 'X', '}']
    } else if k == 7 {
        vec![':', 'o', '}']
    } else if k == 8 {
        vec![':', 'b', '}']
    } else if k == 9 {
        vec![':', 'p', '}']
    } else if k == 10 {
        vec![':', 'e', '}']
    } else {
        vec![':', 'E', '}']
    }
}

/// Whether `template` refers to the placeholder `name` in any recognised form.
pub fn contains_parameter(template: &str, name: &str) -> (r: bool)
    ensures
        r == references(template@, name@),
{
    let hay = chars_of(template);
    let name_chars = chars_of(name);
    let mut k: usize = 0;
    while k < FORM_COUNT
        invariant
            hay@ == template@,
            name_chars@ == name@,
            k <= FORM_COUNT,
            forall|j: int| 0 <= j < k ==> !occurs_in(template@, #[trigger] reference_form(name@, j)),
        decreases FORM_COUNT - k,
    {
        let mut needle = vec!['{'];
        let mut middle = name_chars.clone();
        let mut suffix = form_suffix_chars(k);
        needle.append(&mut middle);
        needle.append(&mut suffix);
        assert(needle@ == reference_form(name@, k as int));
        if occurs(&hay, &needle) {
            return true;
        }
        k = k + 1;
    }
    false
}

/// A message template and the span of the literal it was written in.
pub struct Template {
    pub text: String,
    pub span: usize,
}

/// The severity of a logging call.
#[derive(Clone, Copy, Debug, PartialEq, Eq, Structural)]
pub enum LogLevel {
    Info,
    Error,
}

/// The logging crate whose macros the emitted calls use.
#[derive(Clone, Copy, Debug, PartialEq, Eq, Structural)]
pub enum LogBackend {
    /// `::log::info!` and `::log::error!`.
    Log,
    /// `::tracing::info!` and `::tracing::error!`.
    Tracing,
}

/// The crate name of a logging backend.
pub open spec fn backend_name(b: LogBackend) -> Seq<char> {
    match b {
        LogBackend::Log => "log"@,
        LogBackend::Tracing => "tracing"@,
    }
}

/// The name of the logging macro for a level.
pub open spec fn level_name(level: LogLevel) -> Seq<char> {
    match level {
        LogLevel::Info => "info"@,
        LogLevel::Error => "error"@,
    }
}

/// A placeholder name and the expression that supplies its value.
pub struct Binding {
    pub name: String,
    pub value: Vec<TokenTree>,
}

/// The value of a binding: its name and its value's tokens.
pub open spec fn binding_view(b: Binding) -> (Seq<char>, Seq<Tok>) {
    (b.name@, view_stream(b.value@))
}

/// The candidates offered to a template: the given bindings, then each name
/// bound to itself.
pub open spec fn candidates(
    builtin: Seq<(Seq<char>, Seq<Tok>)>,
    others: Seq<Seq<char>>,
    span: usize,
) -> Seq<(Seq<char>, Seq<Tok>)> {
    builtin + others.map_values(|n: Seq<char>| (n, seq![Tok::Ident(n, span)]))
}

/// The views of the given bindings.
pub open spec fn bindings_view(b: Seq<Binding>) -> Seq<(Seq<char>, Seq<Tok>)> {
    b.map_values(|x: Binding| binding_view(x))
}

/// The views of the given names.
pub open spec fn names_view(n: Seq<String>) -> Seq<Seq<char>> {
    n.map_values(|x: String| x@)
}

/// The candidates whose names the template references, in their order.
pub open spec fn select_bindings(template: Seq<char>, cands: Seq<(Seq<char>, Seq<Tok>)>) -> Seq<
    (Seq<char>, Seq<Tok>),
>
    decreases cands.len(),
{
    if cands.len() == 0 {
        Seq::empty()
    } else {
        let rest = select_bindings(template, cands.subrange(0, cands.len() - 1));
        if references(template, cands[cands.len() - 1].0) {
            rest.push(cands[cands.len() - 1])
        } else {
            rest
        }
    }
}

/// `, name = value` for each binding.
pub open spec fn argument_tokens(binds: Seq<(Seq<char>, Seq<Tok>)>, span: usize) -> Seq<Tok>
    decreases binds.len(),
{
    if binds.len() == 0 {
        Seq::empty()
    } else {
        let b = binds[binds.len() - 1];
        argument_tokens(binds.subrange(0, binds.len() - 1), span) + seq![
            Tok::Punct(',', false, span),
            Tok::Ident(b.0, span),
            Tok::Punct('=', false, span),
        ] + b.1
    }
}

/// `::backend::level!("template", name = value, ...);`
pub open spec fn log_statement(
    backend: LogBackend,
    level: LogLevel,
    template: Seq<char>,
    span: usize,
    binds: Seq<(Seq<char>, Seq<Tok>)>,
) -> Seq<Tok> {
    path_sep(span) + seq![Tok::Ident(backend_name(backend), span)] + path_sep(span) + seq![
        Tok::Ident(level_name(level), span),
        Tok::Punct('!', false, span),
        Tok::Group(
            Delimiter::Parenthesis,
            seq![Tok::Str(template, span)] + argument_tokens(binds, span),
            span,
        ),
        Tok::Punct(';', false, span),
    ]
}

/// Appends `, name = value` to `args`.
fn push_argument(args: &mut Vec<TokenTree>, name: &str, value: Vec<TokenTree>, span: usize)
    ensures
        view_stream(final(args)@) == view_stream(old(args)@) + seq![
            Tok::Punct(',', false, span),
            Tok::Ident(name@, span),
            Tok::Punct('=', false, span),
        ] + view_stream(value@),
{
    push_token(args, punct(',', false, span));
    push_token(args, ident(name, span));
    push_token(args, punct('=', false, span));
    extend(args, value);
}

/// Builds the logging statement for `template`: a call of the logging macro of
/// `level` that passes, of the candidates (`builtin`, then each name of
/// `others` bound to itself), exactly those the template references.
pub fn build_log_statement(
    template: &Template,
    builtin: &Vec<Binding>,
    others: &Vec<String>,
    level: LogLevel,
    backend: LogBackend,
) -> (r: Vec<TokenTree>)
    ensures
        view_stream(r@) == log_statement(
            backend,
            level,
            template.text@,
            template.span,
            select_bindings(
                template.text@,
                candidates(bindings_view(builtin@), names_view(others@), template.span),
            ),
        ),
{
    let span = template.span;
    let ghost t = template.text@;
    let ghost cands = candidates(bindings_view(builtin@), names_view(others@), span);
    let mut args: Vec<TokenTree> = Vec::new();
    let mut i: usize = 0;
    while i < builtin.len()
        invariant
            i <= builtin@.len(),
            cands == candidates(bindings_view(builtin@), names_view(others@), span),
            t == template.text@,
            span == template.span,
            view_stream(args@) == argument_tokens(
                select_bindings(t, cands.subrange(0, i as int)),
                span,
            ),
        decreases builtin.len() - i,
    {
        let b = &builtin[i];
        proof {
            assert(cands.subrange(0, i + 1).subrange(0, i as int) == cands.subrange(0, i as int));
            assert(cands[i as int] == binding_view(*b));
        }
        if contains_parameter(template.text.as_str(), b.name.as_str()) {
            let ghost sel = select_bindings(t, cands.subrange(0, i as int));
            push_argument(&mut args, b.name.as_str(), copy_stream(&b.value), span);
            proof {
                assert(select_bindings(t, cands.subrange(0, i + 1)) == sel.push(binding_view(*b)));
                assert(sel.push(binding_view(*b)).subrange(0, sel.len() as int) == sel);
            }
        }
        i = i + 1;
    }
    let nb = builtin.len();
    let mut j: usize = 0;
    while j < others.len()
        invariant
            j <= others@.len(),
            nb == builtin@.len(),
            cands == candidates(bindings_view(builtin@), names_view(others@), span),
            cands.len() == nb + others@.len(),
            t == template.text@,
            span == template.span,
            view_stream(args@) == argument_tokens(
                select_bindings(t, cands.subrange(0, nb + j)),
                span,
            ),
        decreases others.len() - j,
    {
        let name = &others[j];
        proof {
            assert(cands.subrange(0, nb + j + 1).subrange(0, nb + j) == cands.subrange(0, nb + j));
            assert(cands[nb + j] == (name@, seq![Tok::Ident(name@, span)]));
        }
        if contains_parameter(template.text.as_str(), name.as_str()) {
            let ghost sel = select_bindings(t, cands.subrange(0, nb + j));
            let mut value: Vec<TokenTree> = Vec::new();
            push_token(&mut value, ident(name.as_str(), span));
            push_argument(&mut args, name.as_str(), value, span);
            proof {
                let c = (name@, seq![Tok::Ident(name@, span)]);
                assert(view_stream(value@) == seq![Tok::Ident(name@, span)]);
                assert(select_bindings(t, cands.subrange(0, nb + j + 1)) == sel.push(c));
                assert(sel.push(c).subrange(0, sel.len() as int) == sel);
            }
        }
        j = j + 1;
    }
    assert(cands.subrange(0, cands.len() as int) == cands);
    let mut out: Vec<TokenTree> = Vec::new();
    push_path_sep(&mut out, span);
    let crate_name = match backend {
        LogBackend::Log => "log",
        LogBackend::Tracing => "tracing",
    };
    push_token(&mut out, ident(crate_name, span));
    push_path_sep(&mut out, span);
    let level_text = match level {
        LogLevel::Info => "info",
        LogLevel::Error => "error",
    };
    push_token(&mut out, ident(level_text, span));
    push_token(&mut out, punct('!', false, span));
    let mut inner: Vec<TokenTree> = Vec::new();
    push_token(&mut inner, TokenTree::Str { value: template.text.clone(), span });
    extend(&mut inner, args);
    push_token(&mut out, group(Delimiter::Parenthesis, inner, span));
    push_token(&mut out, punct(';', false, span));
    out
}

/// A logging call binds exactly the candidates its template references: every
/// binding it passes is a candidate whose name the template references, and
/// every candidate whose name the template references is passed.
pub proof fn lemma_bindings_are_referenced(
    template: Seq<char>,
    cands: Seq<(Seq<char>, Seq<Tok>)>,
)
    ensures
        forall|i: int|
            0 <= i < select_bindings(template, cands).len() ==> references(
                template,
                #[trigger] select_bindings(template, cands)[i].0,
            ) && cands.contains(select_bindings(template, cands)[i]),
        forall|j: int|
            0 <= j < cands.len() && references(template, #[trigger] cands[j].0) ==> select_bindings(
                template,
                cands,
            ).contains(cands[j]),
    decreases cands.len(),
{
    if cands.len() > 0 {
        let init = cands.subrange(0, cands.len() - 1);
        let last = cands[cands.len() - 1];
        lemma_bindings_are_referenced(template, init);
        let rest = select_bindings(template, init);
        let sel = select_bindings(template, cands);
        assert forall|i: int| 0 <= i < sel.len() implies references(template, #[trigger] sel[i].0)
            && cands.contains(sel[i]) by {
            if i < rest.len() {
                assert(sel[i] == rest[i]);
                assert(references(template, rest[i].0));
                assert(init.contains(rest[i]));
                let k = choose|k: int| 0 <= k < init.len() && init[k] == rest[i];
                assert(cands[k] == rest[i]);
            } else {
                assert(sel[i] == last);
                assert(cands[cands.len() - 1] == last);
            }
        }
        assert forall|j: int| 0 <= j < cands.len() && references(template, #[trigger] cands[j].0)
            implies sel.contains(cands[j]) by {
            if j < cands.len() - 1 {
                assert(init[j] == cands[j]);
                assert(references(template, init[j].0));
                assert(rest.contains(init[j]));
                let k = choose|k: int| 0 <= k < rest.len() && rest[k] == init[j];
                assert(sel[k] == rest[k]);
            } else {
                assert(sel[sel.len() - 1] == last);
            }
        }
    }
}

} // verus!
