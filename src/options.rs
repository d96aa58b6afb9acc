//! The attribute's configuration: `key = literal` entries separated by commas.

use vstd::prelude::*;
use crate::template::Template;
use crate::text::{replace_all, replace_text, same_text};
use crate::tokens::{
    is_lone_punct, lemma_view_stream_index, lemma_view_stream_len, lone_punct_is, span_of,
    token_span, view_stream, view_tree, Tok, TokenTree,
};

verus! {

/// The value a string literal token denotes, as `syn` decodes it; `None` where
/// the token is not a string literal.
pub uninterp spec fn string_literal_value(text: Seq<char>) -> Option<Seq<char>>;

/// Relies on `syn::parse_str::<syn::LitStr>` and `syn::LitStr::value`: decodes
/// the text of one literal token into the string it denotes, and fails on any
/// other text.
#[verifier::external_body]
fn decode_string_literal(text: &str) -> (r: Option<String>)
    ensures
        match r {
            Some(v) => string_literal_value(text@) == Some(v@),
            None => string_literal_value(text@) is None,
        },
{
    syn::parse_str::<syn::LitStr>(text).ok().map(|lit| lit.value())
}

/// The configuration keys.
#[derive(Clone, Copy, Debug, PartialEq, Eq, Structural)]
pub enum OptionName {
    SuccessMessage,
    ErrorMessage,
    ErrorMessageWithoutInfo,
    LogSuccess,
    DisregardResult,
}

/// The kind of literal a key takes.
#[derive(Clone, Copy, Debug, PartialEq, Eq, Structural)]
pub enum ValueKind {
    Str,
    Bool,
}

/// The option a key names, if any.
pub open spec fn option_named(name: Seq<char>) -> Option<OptionName> {
    if name == "success_message"@ {
        Some(OptionName::SuccessMessage)
    } else if name == "error_message"@ {
        Some(OptionName::ErrorMessage)
    } else if name == "error_message_without_info"@ {
        Some(OptionName::ErrorMessageWithoutInfo)
    } else if name == "log_success"@ {
        Some(OptionName::LogSuccess)
    } else if name == "disregard_result"@ {
        Some(OptionName::DisregardResult)
    } else {
        None
    }
}

/// The kind of literal option `o` takes.
pub open spec fn kind_of(o: OptionName) -> ValueKind {
    match o {
        OptionName::LogSuccess | OptionName::DisregardResult => ValueKind::Bool,
        _ => ValueKind::Str,
    }
}

/// Why a configuration was refused; each carries the span to report it at.
#[derive(Debug)]
pub enum ConfigError {
    /// A key that names no option.
    UnknownOption { name: String, span: usize },
    /// A value whose literal is not of the kind the key takes.
    TypeMismatch { key: String, expected: ValueKind, span: usize },
    /// Tokens out of the `key = literal, ...` shape.
    Malformed { span: usize },
}

/// The value of a [`ConfigError`].
pub enum ConfigFault {
    UnknownOption(Seq<char>, usize),
    TypeMismatch(Seq<char>, ValueKind, usize),
    Malformed(usize),
}

impl View for ConfigError {
    type V = ConfigFault;

    open spec fn view(&self) -> ConfigFault {
        match *self {
            ConfigError::UnknownOption { name, span } => ConfigFault::UnknownOption(name@, span),
            ConfigError::TypeMismatch { key, expected, span } => ConfigFault::TypeMismatch(
                key@,
                expected,
                span,
            ),
            ConfigError::Malformed { span } => ConfigFault::Malformed(span),
        }
    }
}

/// The parsed configuration, with every key that was not given at its default.
pub struct Options {
    pub success_message: Template,
    pub error_message: Template,
    pub error_message_without_info: Template,
    pub log_success: bool,
    pub disregard_result: bool,
}

/// The value of an [`Options`]: each template with its span, and the flags.
pub struct OptionsModel {
    pub success_message: (Seq<char>, usize),
    pub error_message: (Seq<char>, usize),
    pub error_message_without_info: (Seq<char>, usize),
    pub log_success: bool,
    pub disregard_result: bool,
}

impl View for Options {
    type V = OptionsModel;

    open spec fn view(&self) -> OptionsModel {
        OptionsModel {
            success_message: (self.success_message.text@, self.success_message.span),
            error_message: (self.error_message.text@, self.error_message.span),
            error_message_without_info: (
                self.error_message_without_info.text@,
                self.error_message_without_info.span,
            ),
            log_success: self.log_success,
            disregard_result: self.disregard_result,
        }
    }
}

/// The success message where none is given.
pub open spec fn default_success_message() -> Seq<char> {
    "Successfully ran {function}"@
}

/// The error message, where a `?` recorded its line and expression, where none is given.
pub open spec fn default_error_message() -> Seq<char> {
    "An error occurred when running {function} (caused by `{expr}` on line {line}): {error:?}"@
}

/// The error message, where no line and expression were recorded, where none is given.
pub open spec fn default_error_message_without_info() -> Seq<char> {
    "An error occurred when running {function}: {error:?}"@
}

/// The configuration with no key given; its templates carry `span`.
pub open spec fn default_model(span: usize) -> OptionsModel {
    OptionsModel {
        success_message: (default_success_message(), span),
        error_message: (default_error_message(), span),
        error_message_without_info: (default_error_message_without_info(), span),
        log_success: true,
        disregard_result: false,
    }
}

/// The value of a literal of kind `Str`, if `t` is one.
pub open spec fn string_value(t: Tok) -> Option<Seq<char>> {
    match t {
        Tok::Literal(text, _) => string_literal_value(text),
        Tok::Str(value, _) => Some(value),
        _ => None,
    }
}

/// The value of a literal of kind `Bool`, if `t` is one.
pub open spec fn bool_value(t: Tok) -> Option<bool> {
    match t {
        Tok::Ident(name, _) => if name == "true"@ {
            Some(true)
        } else if name == "false"@ {
            Some(false)
        } else {
            None
        },
        _ => None,
    }
}

/// `m` with the option `o` set from the token `t`, or the mismatch `t` makes.
pub open spec fn set_option(m: OptionsModel, o: OptionName, key: Seq<char>, t: Tok) -> Result<
    OptionsModel,
    ConfigFault,
> {
    match kind_of(o) {
        ValueKind::Str => match string_value(t) {
            Some(v) => Ok(
                match o {
                    OptionName::SuccessMessage => OptionsModel {
                        success_message: (v, span_of(t)),
                        ..m
                    },
                    OptionName::ErrorMessage => OptionsModel { error_message: (v, span_of(t)), ..m },
                    _ => OptionsModel { error_message_without_info: (v, span_of(t)), ..m },
                },
            ),
            None => Err(ConfigFault::TypeMismatch(key, ValueKind::Str, span_of(t))),
        },
        ValueKind::Bool => match bool_value(t) {
            Some(b) => Ok(
                match o {
                    OptionName::LogSuccess => OptionsModel { log_success: b, ..m },
                    _ => OptionsModel { disregard_result: b, ..m },
                },
            ),
            None => Err(ConfigFault::TypeMismatch(key, ValueKind::Bool, span_of(t))),
        },
    }
}

/// The span reported for a token that is missing at `i`: that of the token
/// before it, or `span` where there is none.
pub open spec fn span_at(toks: Seq<Tok>, i: int, span: usize) -> usize {
    if 0 <= i < toks.len() {
        span_of(toks[i])
    } else if 0 < i && i - 1 < toks.len() {
        span_of(toks[i - 1])
    } else {
        span
    }
}

/// The configuration that the entries of `toks` from `i` on make of `m`.
pub open spec fn parse_entries(toks: Seq<Tok>, i: int, m: OptionsModel) -> Result<
    OptionsModel,
    ConfigFault,
>
    decreases toks.len() - i,
{
    if i < 0 || i >= toks.len() {
        Ok(m)
    } else {
        match toks[i] {
            Tok::Ident(name, span) => match option_named(name) {
                None => Err(ConfigFault::UnknownOption(name, span)),
                Some(o) => if i + 1 >= toks.len() || !lone_punct_is(toks[i + 1], '=') {
                    Err(ConfigFault::Malformed(span_at(toks, i + 1, span)))
                } else if i + 2 >= toks.len() {
                    Err(ConfigFault::TypeMismatch(name, kind_of(o), span_of(toks[i + 1])))
                } else {
                    match set_option(m, o, name, toks[i + 2]) {
                        Err(e) => Err(e),
                        Ok(m2) => if i + 3 >= toks.len() {
                            Ok(m2)
                        } else if lone_punct_is(toks[i + 3], ',') {
                            parse_entries(toks, i + 4, m2)
                        } else {
                            Err(ConfigFault::Malformed(span_of(toks[i + 3])))
                        },
                    }
                },
            },
            t => Err(ConfigFault::Malformed(span_of(t))),
        }
    }
}

/// The configuration `toks` writes, its templates defaulting to `span`.
pub open spec fn parse_options(toks: Seq<Tok>, span: usize) -> Result<OptionsModel, ConfigFault> {
    parse_entries(toks, 0, default_model(span))
}

fn option_from_name(name: &str) -> (r: Option<OptionName>)
    ensures
        r == option_named(name@),
{
    if same_text(name, "success_message") {
        Some(OptionName::SuccessMessage)
    } else if same_text(name, "error_message") {
        Some(OptionName::ErrorMessage)
    } else if same_text(name, "error_message_without_info") {
        Some(OptionName::ErrorMessageWithoutInfo)
    } else if same_text(name, "log_success") {
        Some(OptionName::LogSuccess)
    } else if same_text(name, "disregard_result") {
        Some(OptionName::DisregardResult)
    } else {
        None
    }
}

impl Options {
    /// The configuration with every key at its default; the templates carry `span`.
    pub fn default_options(span: usize) -> (r: Options)
        ensures
            r@ == default_model(span),
    {
        Options {
            success_message: Template { text: String::from_str("Successfully ran {function}"), span },
            error_message: Template {
                text: String::from_str(
                    "An error occurred when running {function} (caused by `{expr}` on line {line}): {error:?}",
                ),
                span,
            },
            error_message_without_info: Template {
                text: String::from_str("An error occurred when running {function}: {error:?}"),
                span,
            },
            log_success: true,
            disregard_result: false,
        }
    }

    /// Writes the function's name in place of every `{function}` placeholder
    /// of the three templates.
    pub fn replace_function_in_messages(&mut self, orig_name: String)
        ensures
            final(self)@ == (OptionsModel {
                success_message: (
                    replace_all(old(self)@.success_message.0, "{function}"@, orig_name@),
                    old(self)@.success_message.1,
                ),
                error_message: (
                    replace_all(old(self)@.error_message.0, "{function}"@, orig_name@),
                    old(self)@.error_message.1,
                ),
                error_message_without_info: (
                    replace_all(old(self)@.error_message_without_info.0, "{function}"@, orig_name@),
                    old(self)@.error_message_without_info.1,
                ),
                ..old(self)@
            }),
    {
        proof {
            reveal_strlit("{function}");
        }
        let pat = "{function}";
        self.success_message.text = replace_text(self.success_message.text.as_str(), pat, orig_name.as_str());
        self.error_message.text = replace_text(self.error_message.text.as_str(), pat, orig_name.as_str());
        self.error_message_without_info.text = replace_text(
            self.error_message_without_info.text.as_str(),
            pat,
            orig_name.as_str(),
        );
    }

    /// Sets option `o` from the token `t`.
    fn set(&mut self, o: OptionName, key: &str, t: &TokenTree) -> (r: Result<(), ConfigError>)
        ensures
            match set_option(old(self)@, o, key@, view_tree(*t)) {
                Ok(m) => r is Ok && final(self)@ == m,
                Err(e) => r matches Err(f) && f@ == e,
            },
    {
        let span = token_span(t);
        match o {
            OptionName::SuccessMessage | OptionName::ErrorMessage | OptionName::ErrorMessageWithoutInfo => {
                let decoded = match t {
                    TokenTree::Literal { text, .. } => decode_string_literal(text.as_str()),
                    TokenTree::Str { value, .. } => Some(value.clone()),
                    _ => None,
                };
                match decoded {
                    Some(v) => {
                        let tpl = Template { text: v, span };
                        match o {
                            OptionName::SuccessMessage => self.success_message = tpl,
                            OptionName::ErrorMessage => self.error_message = tpl,
                            _ => self.error_message_without_info = tpl,
                        }
                        Ok(())
                    },
                    None => Err(
                        ConfigError::TypeMismatch { key: key.to_owned(), expected: ValueKind::Str, span },
                    ),
                }
            },
            _ => {
                let value = match t {
                    TokenTree::Ident { name, .. } => if same_text(name.as_str(), "true") {
                        Some(true)
                    } else if same_text(name.as_str(), "false") {
                        Some(false)
                    } else {
                        None
                    },
                    _ => None,
                };
                match value {
                    Some(b) => {
                        match o {
                            OptionName::LogSuccess => self.log_success = b,
                            _ => self.disregard_result = b,
                        }
                        Ok(())
                    },
                    None => Err(
                        ConfigError::TypeMismatch { key: key.to_owned(), expected: ValueKind::Bool, span },
                    ),
                }
            },
        }
    }

    /// Parses the attribute's arguments: `key = literal` entries separated by
    /// commas, with an optional trailing comma. Keys not given keep their
    /// defaults, whose templates carry `span`.
    pub fn parse(toks: &Vec<TokenTree>, span: usize) -> (r: Result<Options, ConfigError>)
        ensures
            match parse_options(view_stream(toks@), span) {
                Ok(m) => r matches Ok(o) && o@ == m,
                Err(e) => r matches Err(f) && f@ == e,
            },
    {
        let ghost v = view_stream(toks@);
        proof {
            lemma_view_stream_len(toks@);
            assert forall|k: int| 0 <= k < toks@.len() implies v[k] == view_tree(#[trigger] toks@[k]) by {
                lemma_view_stream_index(toks@, k);
            }
        }
        let n = toks.len();
        let mut opts = Options::default_options(span);
        let mut i: usize = 0;
        while i < n
            invariant
                n == toks@.len(),
                v == view_stream(toks@),
                v.len() == n,
                forall|k: int| 0 <= k < n ==> v[k] == view_tree(#[trigger] toks@[k]),
                parse_options(v, span) == parse_entries(v, i as int, opts@),
            decreases n - i,
        {
            assert(v[i as int] == view_tree(toks@[i as int]));
            let (name, name_span) = match &toks[i] {
                TokenTree::Ident { name, span } => (name, *span),
                t => {
                    return Err(ConfigError::Malformed { span: token_span(t) });
                },
            };
            let o = match option_from_name(name.as_str()) {
                Some(o) => o,
                None => {
                    return Err(ConfigError::UnknownOption { name: name.clone(), span: name_span });
                },
            };
            if i + 1 >= n || !is_lone_punct(&toks[i + 1], '=') {
                let at = if i + 1 < n {
                    token_span(&toks[i + 1])
                } else {
                    name_span
                };
                return Err(ConfigError::Malformed { span: at });
            }
            if i + 2 >= n {
                return Err(
                    ConfigError::TypeMismatch {
                        key: name.clone(),
                        expected: if o == OptionName::LogSuccess || o == OptionName::DisregardResult {
                            ValueKind::Bool
                        } else {
                            ValueKind::Str
                        },
                        span: token_span(&toks[i + 1]),
                    },
                );
            }
            match opts.set(o, name.as_str(), &toks[i + 2]) {
                Ok(()) => {},
                Err(e) => {
                    return Err(e);
                },
            }
            if i + 3 >= n {
                return Ok(opts);
            }
            if !is_lone_punct(&toks[i + 3], ',') {
                return Err(ConfigError::Malformed { span: token_span(&toks[i + 3]) });
            }
            i = i + 4;
        }
        Ok(opts)
    }
}

} // verus!
