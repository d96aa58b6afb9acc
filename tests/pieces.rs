use proc_macro2::{Delimiter as PmDelimiter, Spacing, TokenStream, TokenTree as PmTree};
use std::str::FromStr;
use wrap_match::options::{ConfigError, Options, ValueKind};
use wrap_match::render::render_stream;
use wrap_match::template::{build_log_statement, contains_parameter, Binding, LogBackend, LogLevel, Template};
use wrap_match::text::replace_text;
use wrap_match::tokens::{Delimiter, TokenTree};
use wrap_match::WrapMatchError;

fn convert(ts: TokenStream, next: &mut usize) -> Vec<TokenTree> {
    let mut out = Vec::new();
    for t in ts {
        let span = *next;
        *next += 1;
        out.push(match t {
            PmTree::Ident(i) => TokenTree::Ident { name: i.to_string(), span },
            PmTree::Punct(p) => TokenTree::Punct { ch: p.as_char(), joint: p.spacing() == Spacing::Joint, span },
            PmTree::Literal(l) => TokenTree::Literal { text: l.to_string(), span },
            PmTree::Group(g) => {
                let delimiter = match g.delimiter() {
                    PmDelimiter::Parenthesis => Delimiter::Parenthesis,
                    PmDelimiter::Brace => Delimiter::Brace,
                    PmDelimiter::Bracket => Delimiter::Bracket,
                    PmDelimiter::None => Delimiter::Invisible,
                };
                TokenTree::Group { delimiter, stream: convert(g.stream(), next), span }
            }
        });
    }
    out
}

/// Tokens of `src`, spans numbered from `first` in order of appearance.
fn flat(src: &str, first: usize) -> Vec<TokenTree> {
    let mut next = first;
    convert(TokenStream::from_str(src).unwrap(), &mut next)
}

#[test]
fn every_reference_form_is_recognised() {
    for form in ["{error}", "{error:?}", "{error:#?}", "{error:x?}", "{error:X?}", "{error:x}", "{error:X}", "{error:o}", "{error:b}", "{error:p}", "{error:e}", "{error:E}"] {
        let t = format!("failed: {} here", form);
        assert!(contains_parameter(&t, "error"), "{}", form);
    }
}

#[test]
fn absent_or_other_forms_are_not_references() {
    assert!(!contains_parameter("failed: {error:>8}", "error"));
    assert!(!contains_parameter("failed: {errors}", "error"));
    assert!(!contains_parameter("failed: error", "error"));
    assert!(!contains_parameter("", "error"));
    assert!(contains_parameter("{line}", "line"));
}

#[test]
fn log_statement_passes_only_referenced_candidates() {
    let t = Template { text: "{error:?} at {line}".to_string(), span: 7 };
    let builtin = vec![
        Binding { name: "line".to_string(), value: flat("_line", 1) },
        Binding { name: "expr".to_string(), value: flat("_expr", 2) },
        Binding { name: "error".to_string(), value: flat("e . inner", 3) },
    ];
    let others = vec!["a".to_string(), "b".to_string()];
    let out = build_log_statement(&t, &builtin, &others, LogLevel::Error, LogBackend::Log);
    assert_eq!(render_stream(&out), "::log::error!(\"{error:?} at {line}\", line=_line, error=e.inner);");
    let t = Template { text: "hi {b}".to_string(), span: 0 };
    let out = build_log_statement(&t, &Vec::new(), &others, LogLevel::Info, LogBackend::Tracing);
    assert_eq!(render_stream(&out), "::tracing::info!(\"hi {b}\", b=b);");
}

#[test]
fn default_options() {
    let o = Options::parse(&Vec::new(), 3).unwrap();
    assert_eq!(o.success_message.text, "Successfully ran {function}");
    assert_eq!(o.error_message.text, "An error occurred when running {function} (caused by `{expr}` on line {line}): {error:?}");
    assert_eq!(o.error_message_without_info.text, "An error occurred when running {function}: {error:?}");
    assert_eq!(o.success_message.span, 3);
    assert!(o.log_success);
    assert!(!o.disregard_result);
}

#[test]
fn options_are_read() {
    let toks = flat("success_message = \"ok {function}\", log_success = false, disregard_result = true,", 1);
    let o = Options::parse(&toks, 0).unwrap();
    assert_eq!(o.success_message.text, "ok {function}");
    assert_eq!(o.success_message.span, 3);
    assert!(!o.log_success);
    assert!(o.disregard_result);
    assert_eq!(o.error_message.span, 0);
}

#[test]
fn escaped_string_values_are_decoded() {
    let toks = flat("error_message = \"a \\\"b\\\" \\n\"", 1);
    let o = Options::parse(&toks, 0).unwrap();
    assert_eq!(o.error_message.text, "a \"b\" \n");
}

#[test]
fn unknown_option_is_refused() {
    let toks = flat("log_successes = true", 1);
    match Options::parse(&toks, 0) {
        Err(ConfigError::UnknownOption { name, span }) => {
            assert_eq!(name, "log_successes");
            assert_eq!(span, 1);
        }
        _ => panic!("expected an unknown option"),
    }
}

#[test]
fn invalid_option_type() {
    match Options::parse(&flat("success_message = true", 1), 0) {
        Err(ConfigError::TypeMismatch { key, expected, span }) => {
            assert_eq!(key, "success_message");
            assert_eq!(expected, ValueKind::Str);
            assert_eq!(span, 3);
        }
        _ => panic!("expected a type mismatch"),
    }
    match Options::parse(&flat("log_success = \"true\"", 1), 0) {
        Err(ConfigError::TypeMismatch { key, expected, .. }) => {
            assert_eq!(key, "log_success");
            assert_eq!(expected, ValueKind::Bool);
        }
        _ => panic!("expected a type mismatch"),
    }
    match Options::parse(&flat("log_success =", 1), 0) {
        Err(ConfigError::TypeMismatch { span, .. }) => assert_eq!(span, 2),
        _ => panic!("expected a type mismatch"),
    }
}

#[test]
fn malformed_configuration_is_refused() {
    assert!(matches!(Options::parse(&flat("log_success true", 1), 0), Err(ConfigError::Malformed { span: 2 })));
    assert!(matches!(Options::parse(&flat("log_success = true log_success = false", 1), 0), Err(ConfigError::Malformed { span: 4 })));
    assert!(matches!(Options::parse(&flat("= true", 1), 0), Err(ConfigError::Malformed { span: 1 })));
    assert!(matches!(Options::parse(&flat("log_success", 1), 0), Err(ConfigError::Malformed { span: 1 })));
}

#[test]
fn function_name_is_written_into_every_template() {
    let mut o = Options::parse(&Vec::new(), 0).unwrap();
    o.replace_function_in_messages("my_function".to_string());
    assert_eq!(o.success_message.text, "Successfully ran my_function");
    assert_eq!(o.error_message.text, "An error occurred when running my_function (caused by `{expr}` on line {line}): {error:?}");
    assert_eq!(o.error_message_without_info.text, "An error occurred when running my_function: {error:?}");
}

#[test]
fn replacement_is_left_to_right_without_overlap() {
    assert_eq!(replace_text("{function}{function} {function", "{function}", "f"), "ff {function");
    assert_eq!(replace_text("aaa", "aa", "b"), "ba");
    assert_eq!(replace_text("", "x", "y"), "");
}

#[test]
fn templates_are_carried_by_value() {
    let t = Template { text: "say \"hi\" \\ {a}".to_string(), span: 4 };
    let out = build_log_statement(&t, &Vec::new(), &vec!["a".to_string()], LogLevel::Info, LogBackend::Log);
    match &out[7] {
        TokenTree::Group { stream, .. } => match &stream[0] {
            TokenTree::Str { value, span } => {
                assert_eq!(value, "say \"hi\" \\ {a}");
                assert_eq!(*span, 4);
            }
            other => panic!("unexpected {:?}", other),
        },
        other => panic!("unexpected {:?}", other),
    }
}

#[test]
fn text_keeps_a_space_after_commas_only() {
    let a = flat("f ( a , b )", 1);
    assert_eq!(render_stream(&a), "f(a, b)");
    let b = flat("x as u8 + 1", 1);
    assert_eq!(render_stream(&b), "x as u8+1");
}

#[test]
fn text_does_not_depend_on_spans() {
    let a = flat("g ( )", 1);
    let b = flat("g ( )", 40);
    assert_eq!(render_stream(&a), render_stream(&b));
}

#[test]
fn caller_receives_the_underlying_error() {
    let e = WrapMatchError::diagnosed(12, "g()", 42u8);
    match &e {
        WrapMatchError::Diagnosed { line, expr, inner } => {
            assert_eq!(*line, 12);
            assert_eq!(expr, "g()");
            assert_eq!(*inner, 42);
        }
        WrapMatchError::Bare { .. } => panic!("expected a recorded line"),
    }
    assert_eq!(e.into_inner(), 42);
    let f: WrapMatchError<&str> = WrapMatchError::from("boom");
    assert!(matches!(f, WrapMatchError::Bare { inner: "boom" }));
    assert_eq!(f.into_inner(), "boom");
}
