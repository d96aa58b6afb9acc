use proc_macro2::{Delimiter as PmDelimiter, Spacing, TokenStream, TokenTree as PmTree};
use std::str::FromStr;
use wrap_match::render::render_stream;
use wrap_match::synth::WrapError;
use wrap_match::options::ConfigError;
use wrap_match::signature::ShapeError;
use wrap_match::template::LogBackend;
use wrap_match::tokens::{Delimiter, TokenTree};
use wrap_match::wrap_match;

fn convert(ts: TokenStream, next: &mut usize) -> Vec<TokenTree> {
    let mut out = Vec::new();
    for t in ts {
        *next += 1;
        let span = *next;
        out.push(match t {
            PmTree::Ident(i) => TokenTree::Ident { name: i.to_string(), span },
            PmTree::Punct(p) => TokenTree::Punct {
                ch: p.as_char(),
                joint: p.spacing() == Spacing::Joint,
                span,
            },
            PmTree::Literal(l) => TokenTree::Literal { text: l.to_string(), span },
            PmTree::Group(g) => {
                let delimiter = match g.delimiter() {
                    PmDelimiter::Parenthesis => Delimiter::Parenthesis,
                    PmDelimiter::Brace => Delimiter::Brace,
                    PmDelimiter::Bracket => Delimiter::Bracket,
                    PmDelimiter::None => Delimiter::Invisible,
                };
                TokenTree::Group { delimiter, stream: convert(g.stream(), next), span }
            }
        });
    }
    out
}

/// Tokens of `args` and `item`, spans numbered from 1 in order of appearance.
fn input(args: &str, item: &str) -> (Vec<TokenTree>, Vec<TokenTree>) {
    let mut next = 0;
    let a = convert(TokenStream::from_str(args).unwrap(), &mut next);
    let i = convert(TokenStream::from_str(item).unwrap(), &mut next);
    (a, i)
}

fn expand(args: &str, item: &str) -> String {
    let (a, i) = input(args, item);
    match wrap_match(&a, &i, 0, LogBackend::Log) {
        Ok(out) => render_stream(&out),
        Err(e) => panic!("transform failed: {:?}", e),
    }
}

/// The spans of every identifier named `name`, at any depth.
fn ident_spans(v: &[TokenTree], name: &str, found: &mut Vec<usize>) {
    for t in v {
        match t {
            TokenTree::Ident { name: n, span } if n == name => found.push(*span),
            TokenTree::Group { stream, .. } => ident_spans(stream, name, found),
            _ => {}
        }
    }
}

fn has(out: &str, piece: &str) {
    assert!(out.contains(piece), "missing {} in {}", piece, out);
}

fn lacks(out: &str, piece: &str) {
    assert!(!out.contains(piece), "unexpected {} in {}", piece, out);
}

fn starts(out: &str, piece: &str) {
    assert!(out.starts_with(piece), "{} does not start {}", piece, out);
}

const FAILING_CALL: &str = "fn f() -> Result<(), E> {\n    g()?;\n    Ok(())\n}";

#[test]
fn propagation_site_records_expression_and_returns_underlying_error() {
    let out = expand("", FAILING_CALL);
    has(&out, "g().map_err(|e|::wrap_match::WrapMatchError::diagnosed(::core::line!(), \"g()\", e.into()))?;");
    assert_eq!(out.matches("map_err").count(), 1);
    has(&out, "::log::error!(\"An error occurred when running f (caused by `{expr}` on line {line}): {error:?}\", line=_line, expr=_expr, error=_error);");
    has(&out, "Err(e)=>{match e{::wrap_match::WrapMatchError::Diagnosed{line:_line, expr:_expr, inner:_error}=>{::log::error!(");
    has(&out, "::wrap_match::WrapMatchError::Bare{inner:_error}=>{::log::error!(\"An error occurred when running f: {error:?}\", error=_error);Err(_error)}}}");
    assert_eq!(out.matches("Err(_error)").count(), 2);
    has(&out, "fn _wrap_match_inner_f()->Result<(), ::wrap_match::WrapMatchError<E>>");
    starts(&out, "fn f()->Result<(), E>{#[doc(hidden)]");
}

#[test]
fn line_capture_uses_the_span_of_the_failing_call() {
    let (a, i) = input("", FAILING_CALL);
    let mut g_spans = Vec::new();
    ident_spans(&i, "g", &mut g_spans);
    assert_eq!(g_spans.len(), 1);
    let out = wrap_match(&a, &i, 0, LogBackend::Log).unwrap();
    let mut core_spans = Vec::new();
    ident_spans(&out, "core", &mut core_spans);
    assert_eq!(core_spans, vec![g_spans[0]]);
}

#[test]
fn error_message_binds_only_what_it_names() {
    let out = expand("error_message = \"{error}\"", FAILING_CALL);
    has(&out, "::log::error!(\"{error}\", error=_error);");
    lacks(&out, "line=_line");
    lacks(&out, "expr=_expr");
}

#[test]
fn receiver_method_keeps_its_signature_and_hides_the_copy() {
    let item = "pub fn err_self(&self) -> Result<(), CustomError> { Err(CustomError::Error)?; Ok(()) }";
    let out = expand("", item);
    starts(&out, "#[doc(hidden)]#[deprecated=\"inner copy of a wrapped function: call the wrapper instead\"]#[inline(always)]fn _wrap_match_inner_err_self(&self)->Result<(), ::wrap_match::WrapMatchError<CustomError>>{");
    has(&out, "pub fn err_self(&self)->Result<(), CustomError>{#[allow(deprecated)]match self._wrap_match_inner_err_self(){");
    assert_eq!(out.matches("pub fn").count(), 1);
}

#[test]
fn const_function_is_refused() {
    let (a, i) = input("", "const fn f() -> Result<(), E> { Ok(()) }");
    match wrap_match(&a, &i, 0, LogBackend::Log) {
        Err(WrapError::Shape(ShapeError::ConstUnsupported { span })) => assert_eq!(span, 1),
        other => panic!("unexpected {:?}", other),
    }
}

#[test]
fn result_type_is_required() {
    let (a, i) = input("", "fn f() -> Option<u8> { None }");
    assert!(matches!(
        wrap_match(&a, &i, 0, LogBackend::Log),
        Err(WrapError::Shape(ShapeError::UnsupportedReturnType { span: 6 }))
    ));
    let (a, i) = input("", "fn f() { }");
    assert!(matches!(
        wrap_match(&a, &i, 0, LogBackend::Log),
        Err(WrapError::Shape(ShapeError::UnsupportedReturnType { span: 2 }))
    ));
    let (a, i) = input("", "fn f() -> io::Result<u8> { Ok(1) }");
    assert!(matches!(
        wrap_match(&a, &i, 0, LogBackend::Log),
        Err(WrapError::Shape(ShapeError::UnsupportedReturnType { .. }))
    ));
}

#[test]
fn return_type_is_checked_before_constness() {
    let (a, i) = input("", "const fn f() -> u8 { 1 }");
    assert!(matches!(
        wrap_match(&a, &i, 0, LogBackend::Log),
        Err(WrapError::Shape(ShapeError::UnsupportedReturnType { .. }))
    ));
}

#[test]
fn non_function_is_refused() {
    let (a, i) = input("", "struct S;");
    assert!(matches!(wrap_match(&a, &i, 0, LogBackend::Log), Err(WrapError::Shape(ShapeError::NotAFunction { span: 0 }))));
}

#[test]
fn configuration_errors_come_first() {
    let (a, i) = input("colour = \"red\"", "struct S;");
    match wrap_match(&a, &i, 0, LogBackend::Log) {
        Err(WrapError::Config(ConfigError::UnknownOption { name, span })) => {
            assert_eq!(name, "colour");
            assert_eq!(span, 1);
        }
        other => panic!("unexpected {:?}", other),
    }
}

#[test]
fn disregarded_result_yields_unit() {
    let out = expand("disregard_result = true", "fn main() -> Result<(), CustomError> { Err(CustomError::Error)?; Ok(()) }");
    starts(&out, "fn main(){");
    has(&out, "Ok(r)=>{::log::info!(\"Successfully ran main\");}");
    lacks(&out, "Err(_error)");
}

#[test]
fn silent_success_logs_nothing_on_success() {
    let out = expand("log_success = false", "fn silent_ok() -> Result<(), ()> { Ok(()) }");
    lacks(&out, "::log::info!");
    has(&out, "Ok(r)=>{Ok(r)}");
}

#[test]
fn success_message_binds_named_parameters() {
    let out = expand("success_message = \"success {_a} {function}\"", "fn ok(_a: i64, b: u8) -> Result<(), ()> { Ok(()) }");
    has(&out, "::log::info!(\"success {_a} ok\", _a=_a);");
    has(&out, "match _wrap_match_inner_ok(_a, b){");
}

#[test]
fn asynchronous_call_awaits_once() {
    let out = expand("", "async unsafe fn g(x: bool) -> Result<(), E> { Err(E.into()) }");
    has(&out, "match _wrap_match_inner_g(x).await{");
    assert_eq!(out.matches(".await").count(), 1);
    has(&out, "async unsafe fn _wrap_match_inner_g(x:bool)");
}

#[test]
fn parameters_lose_mutability_and_types() {
    let out = expand("", "fn q(x:&mut u8, y: u8) -> Result<(), E> { Ok(()) }");
    has(&out, "match _wrap_match_inner_q(x, y){");
    let out = expand("", "fn h(mut a: bool, (b, c): (u8, u8), #[allow(unused)] d: &mut bool) -> Result<(), E> { Ok(()) }");
    has(&out, "match _wrap_match_inner_h(a, (b, c), d){");
    has(&out, "fn _wrap_match_inner_h(mut a:bool, (b, c):(u8, u8), #[allow(unused)]d:&mut bool)");
}

#[test]
fn generic_error_type_is_kept_whole() {
    let out = expand("", "fn k<'lt, ANY>(_any: ANY) -> Result<&'lt str, Box<dyn Error>> where ANY: Clone { Ok(\"\") }");
    has(&out, "fn _wrap_match_inner_k<'lt, ANY>(_any:ANY)->Result<&'lt str, ::wrap_match::WrapMatchError<Box<dyn Error>>>where ANY:Clone{");
    has(&out, "fn k<'lt, ANY>(_any:ANY)->Result<&'lt str, Box<dyn Error>>where ANY:Clone{");
}

#[test]
fn closures_nested_functions_and_macros_are_left_alone() {
    let item = "fn f() -> Result<(), E> { let c = |x: Result<u8, E>| x?; fn n() -> Result<(), E> { m()?; Ok(()) } println!(\"{}\", p()?); a()?; Ok(()) }";
    let out = expand("", item);
    assert_eq!(out.matches("map_err").count(), 1);
    has(&out, "a().map_err(");
    has(&out, "|x:Result<u8, E>|x?;");
}

#[test]
fn expression_text_covers_the_whole_chain() {
    let out = expand("", "fn f() -> Result<(), E> { let n = s.parse::<u32>()?; let m = &a.b(c,d)?; Ok(()) }");
    has(&out, "\"s.parse::<u32>()\"");
    has(&out, "\"a.b(c, d)\"");
}

#[test]
fn nested_groups_are_rewritten() {
    let out = expand("", "fn f() -> Result<(), E> { if x { g()?; } Ok(h(k()?)) }");
    has(&out, "\"g()\"");
    has(&out, "\"k()\"");
    assert_eq!(out.matches("map_err").count(), 2);
}

#[test]
fn expansion_is_deterministic() {
    assert_eq!(expand("", FAILING_CALL), expand("", FAILING_CALL));
}

#[test]
fn logical_or_does_not_open_a_closure() {
    let out = expand("", "fn f(a: bool, b: bool) -> Result<(), E> { if a || b { g()?; } let c = || h(); c()?; Ok(()) }");
    has(&out, "if a||b{g().map_err(");
    has(&out, "\"g()\"");
    has(&out, "\"c()\"");
    assert_eq!(out.matches("map_err").count(), 2);
    let out = expand("", "fn f() -> Result<(), E> { let x = 1 || b, g()?; Ok(()) }");
    has(&out, "\"g()\"");
}

#[test]
fn function_pointer_types_do_not_hide_sites() {
    let out = expand("", "fn f() -> Result<(), E> { let p: fn() = pick(g()?)?; let h: fn(&Req) -> Resp = routes.get(p).copied().ok_or(E::NotFound)?; Ok(()) }");
    has(&out, "\"g()\"");
    has(&out, "\"pick(g()?)\"");
    has(&out, "\"routes.get(p).copied().ok_or(E::NotFound)\"");
    assert_eq!(out.matches(".map_err(").count(), 3);
}

#[test]
fn nested_functions_after_qualifiers_are_left_alone() {
    let out = expand("", "fn f() -> Result<(), E> { #[inline] pub(crate) unsafe extern \"C\" fn n() -> Result<(), E> { m()?; Ok(()) } const fn k() {} a()?; Ok(()) }");
    lacks(&out, "\"m()\"");
    has(&out, "\"a()\"");
    assert_eq!(out.matches(".map_err(").count(), 1);
}

#[test]
fn generic_arguments_do_not_end_a_closure() {
    let out = expand("", "fn f() -> Result<(), E> { let c = |x| f::<A, B>(x?); let d = |y| y < 3, z()?; Ok(()) }");
    has(&out, "|x|f::<A, B>(x?);");
    has(&out, "\"z()\"");
    assert_eq!(out.matches(".map_err(").count(), 1);
}

#[test]
fn qualified_paths_are_recorded_whole() {
    let out = expand("", "fn f() -> Result<(), E> { let v = <T as Trait>::f()?; Ok(()) }");
    has(&out, "\"<T as Trait>::f()\"");
}

#[test]
fn block_like_expressions_are_recorded_whole() {
    let out = expand("", "fn f() -> Result<(), E> { let v = match r { Ok(v) => Ok(v), Err(e) => Err(e) }?; let w = unsafe { u() }?; let x = if c { a() } else if d { b() } else { z() }?; Ok(()) }");
    has(&out, "\"match r{Ok(v)=>Ok(v), Err(e)=>Err(e)}\"");
    has(&out, "\"unsafe{u()}\"");
    has(&out, "\"if c{a()}else if d{b()}else{z()}\"");
    let out = expand("", "fn f() -> Result<(), E> { if c { x(); } S { a: 1 }.check()?; Ok(()) }");
    has(&out, "\"S{a:1}.check()\"");
}

#[test]
fn raw_function_names_give_plain_inner_names() {
    let out = expand("", "fn r#type() -> Result<(), E> { Ok(()) }");
    has(&out, "fn _wrap_match_inner_type()");
    has(&out, "fn r#type()->Result<(), E>{");
    has(&out, "match _wrap_match_inner_type(){");
}

#[test]
fn tracing_backend_names_tracing() {
    let (a, i) = input("", FAILING_CALL);
    let out = render_stream(&wrap_match(&a, &i, 0, LogBackend::Tracing).unwrap());
    has(&out, "::tracing::info!(\"Successfully ran f\");");
    has(&out, "::tracing::error!(");
    lacks(&out, "::log::");
}

/// Checks one function of the wrapped-function suite: the outer signature it
/// keeps, how it calls its copy, how many `?` record a line, and what its
/// failure arm returns.
fn check_case(args: &str, item: &str, outer: &str, call: &str, sites: usize, pieces: &[&str], unit: bool) {
    let out = expand(args, item);
    has(&out, outer);
    has(&out, call);
    assert_eq!(out.matches(".map_err(").count(), sites, "{}", out);
    for piece in pieces {
        has(&out, piece);
    }
    if unit {
        lacks(&out, "Err(_error)");
        lacks(&out, "Ok(r)}");
    } else {
        assert_eq!(out.matches("Err(_error)").count(), 2, "{}", out);
        has(&out, "Ok(r)}");
    }
}

#[test]
fn basic_wrapper() {
    check_case(
        "success_message = \"success {_a}\"",
        "#[tracing::instrument] fn ok(_a: i64) -> Result<(), ()> { tracing::info!(\"hello from tracing!\"); Ok(()) }",
        "#[tracing::instrument]fn ok(_a:i64)->Result<(), ()>{",
        "match _wrap_match_inner_ok(_a){",
        0,
        &["::log::info!(\"success {_a}\", _a=_a);", "tracing::info!(\"hello from tracing!\");"],
        false,
    );
    check_case(
        "log_success = false",
        "fn silent_ok() -> Result<(), ()> { Ok(()) }",
        "fn silent_ok()->Result<(), ()>{",
        "Ok(r)=>{Ok(r)}",
        0,
        &[],
        false,
    );
    check_case(
        "",
        "fn err() -> Result<(), CustomError> { Err(CustomError::Error)?; Ok(()) }",
        "fn err()->Result<(), CustomError>{",
        "match _wrap_match_inner_err(){",
        1,
        &["\"Err(CustomError::Error)\""],
        false,
    );
    check_case(
        "",
        "fn dyn_error() -> Result<(), Box<dyn Error>> { err()?; Err(CustomError::Error)?; Ok(()) }",
        "fn dyn_error()->Result<(), Box<dyn Error>>{",
        "fn _wrap_match_inner_dyn_error()->Result<(), ::wrap_match::WrapMatchError<Box<dyn Error>>>{",
        2,
        &["\"err()\"", "\"Err(CustomError::Error)\""],
        false,
    );
    check_case(
        "error_message = \"test {function} {error:?} {expr}\"",
        "#[allow(clippy::let_unit_value)] fn err_into(_arg1: bool, _arg2: &bool) -> Result<(), CustomError> { let _ = generic::err_into_generic(false, _arg2)?; Ok(()) }",
        "#[allow(clippy::let_unit_value)]fn err_into(_arg1:bool, _arg2:&bool)->Result<(), CustomError>{",
        "match _wrap_match_inner_err_into(_arg1, _arg2){",
        1,
        &[
            "\"generic::err_into_generic(false, _arg2)\"",
            "::log::error!(\"test err_into {error:?} {expr}\", expr=_expr, error=_error);",
        ],
        false,
    );
    check_case(
        "error_message_without_info = \"oh no an error occurred: {error:?}\"",
        "async unsafe fn err_into_async_unsafe(_arg1: bool, _arg2: bool) -> Result<(), CustomError> { Err(CustomError::Error.into()) }",
        "async unsafe fn err_into_async_unsafe(_arg1:bool, _arg2:bool)->Result<(), CustomError>{",
        "match _wrap_match_inner_err_into_async_unsafe(_arg1, _arg2).await{",
        0,
        &["::log::error!(\"oh no an error occurred: {error:?}\", error=_error);"],
        false,
    );
    check_case(
        "error_message_without_info = \"oh no an error occurred\"",
        "pub fn err_into_generic<T>(_arg1: T, _arg2: &bool) -> Result<(), CustomError> { Err(CustomError::Error.into()) }",
        "pub fn err_into_generic<T>(_arg1:T, _arg2:&bool)->Result<(), CustomError>{",
        "match _wrap_match_inner_err_into_generic(_arg1, _arg2){",
        0,
        &["::log::error!(\"oh no an error occurred\");"],
        false,
    );
    check_case(
        "",
        "pub fn err() -> Result<(), CustomError> { Err(CustomError::Error)?; Ok(()) }",
        "pub fn err()->Result<(), CustomError>{#[doc(hidden)]",
        "match _wrap_match_inner_err(){",
        1,
        &[],
        false,
    );
    check_case(
        "",
        "pub fn err_self(&self) -> Result<(), CustomError> { Err(CustomError::Error)?; Ok(()) }",
        "pub fn err_self(&self)->Result<(), CustomError>{#[allow(deprecated)]",
        "match self._wrap_match_inner_err_self(){",
        1,
        &[],
        false,
    );
    check_case(
        "",
        "#[allow(unused_mut)] fn err_mut_arg(mut arg1: bool) -> Result<(), CustomError> { err_ref_mut_arg(&mut arg1)?; Err(CustomError::Error)?; Ok(()) }",
        "#[allow(unused_mut)]fn err_mut_arg(mut arg1:bool)->Result<(), CustomError>{",
        "match _wrap_match_inner_err_mut_arg(arg1){",
        2,
        &["\"err_ref_mut_arg(&mut arg1)\""],
        false,
    );
    check_case(
        "",
        "fn err_ref_mut_arg(_arg1: &mut bool) -> Result<(), CustomError> { Ok(()) }",
        "fn err_ref_mut_arg(_arg1:&mut bool)->Result<(), CustomError>{",
        "match _wrap_match_inner_err_ref_mut_arg(_arg1){",
        0,
        &[],
        false,
    );
    check_case(
        "disregard_result = true",
        "fn err_disregard_result() -> Result<(), CustomError> { Err(CustomError::Error)?; Ok(()) }",
        "fn err_disregard_result(){",
        "match _wrap_match_inner_err_disregard_result(){",
        1,
        &[],
        true,
    );
    check_case(
        "",
        "fn err_lifetime<'lt>() -> Result<&'lt str, CustomError> { Err(CustomError::Error)?; Ok(\"\") }",
        "fn err_lifetime<'lt>()->Result<&'lt str, CustomError>{",
        "fn _wrap_match_inner_err_lifetime<'lt>()->Result<&'lt str, ::wrap_match::WrapMatchError<CustomError>>{",
        1,
        &[],
        false,
    );
    check_case(
        "",
        "fn err_lifetime_generics<'lt, ANY>(_any: ANY) -> Result<&'lt str, CustomError> { Err(CustomError::Error)?; Ok(\"\") }",
        "fn err_lifetime_generics<'lt, ANY>(_any:ANY)->Result<&'lt str, CustomError>{",
        "match _wrap_match_inner_err_lifetime_generics(_any){",
        1,
        &[],
        false,
    );
}
