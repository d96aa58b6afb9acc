//! The error that a wrapped function's inner copy returns: the underlying
//! error, with the line and the text of the expression whose `?` failed where
//! a `?` raised it.

use vstd::prelude::*;

verus! {

/// An error of the inner copy of a wrapped function.
pub enum WrapMatchError<E> {
    /// Raised by a `?`: the line and the text of the expression that failed,
    /// and the underlying error.
    Diagnosed { line: u32, expr: String, inner: E },
    /// Returned without a `?`, through the conversion from `E`.
    Bare { inner: E },
}

impl<E> WrapMatchError<E> {
    /// The underlying error, which the wrapper hands to its caller.
    pub open spec fn underlying(self) -> E {
        match self {
            WrapMatchError::Diagnosed { inner, .. } => inner,
            WrapMatchError::Bare { inner } => inner,
        }
    }

    /// The error a failed `?` raises at `line`, on the expression `expr`.
    pub fn diagnosed(line: u32, expr: &str, inner: E) -> (r: WrapMatchError<E>)
        ensures
            r matches WrapMatchError::Diagnosed { line: l, expr: t, .. } && l == line && t@ == expr@,
            r.underlying() == inner,
    {
        WrapMatchError::Diagnosed { line, expr: expr.to_owned(), inner }
    }

    /// The underlying error.
    pub fn into_inner(self) -> (r: E)
        ensures
            r == self.underlying(),
    {
        match self {
            WrapMatchError::Diagnosed { inner, .. } => inner,
            WrapMatchError::Bare { inner } => inner,
        }
    }
}

impl<E> From<E> for WrapMatchError<E> {
    /// An error returned without `?`: no line or expression is known.
    fn from(inner: E) -> (r: WrapMatchError<E>) {
        WrapMatchError::Bare { inner }
    }
}

impl<E> vstd::std_specs::convert::FromSpecImpl<E> for WrapMatchError<E> {
    open spec fn obeys_from_spec() -> bool {
        true
    }

    open spec fn from_spec(inner: E) -> WrapMatchError<E> {
        WrapMatchError::Bare { inner }
    }
}

/// Whatever way an error of the inner copy was made, by a failed `?` or by
/// conversion of a returned error, what the caller receives is the
/// underlying error itself.
pub proof fn lemma_caller_sees_underlying_error<E>(line: u32, expr: String, err: E)
    ensures
        (WrapMatchError::Diagnosed { line, expr, inner: err }).underlying() == err,
        <WrapMatchError<E> as vstd::std_specs::convert::FromSpec<E>>::from_spec(err).underlying()
            == err,
{
}

} // verus!
