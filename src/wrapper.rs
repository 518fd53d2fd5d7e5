//! The conversion contract of a transparent wrapper.
use vstd::prelude::*;

verus! {

/// A type that holds exactly one value of its inner type, and nothing else.
pub trait Wrapper: Sized {
    /// The wrapped type.
    type Inner;

    /// Wraps the value, returning a new instance of the wrapper.
    fn wrap(inner: Self::Inner) -> Self;

    /// Unwraps the wrapper, returning its inner value.
    fn unwrap(self) -> Self::Inner;
}

} // verus!
