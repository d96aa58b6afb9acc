//! Wraps a function whose result is a `Result` so that every error leaving it
//! is logged, and every `?` inside it records the line and the expression that
//! failed.
//!
//! The library works on a plain model of Rust tokens ([`tokens::TokenTree`]):
//! the attribute's front end converts the compiler's tokens to that model,
//! calls [`wrap_match`], and converts the result back.

pub mod error;
pub mod inject;
pub mod options;
pub mod render;
pub mod signature;
pub mod synth;
pub mod template;
pub mod text;
pub mod tokens;

pub use error::WrapMatchError;
pub use inject::AddErrorInfo;
pub use options::Options;
pub use synth::wrap_match;
pub use template::build_log_statement;
