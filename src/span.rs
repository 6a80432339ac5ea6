//! Source locations, and values that carry one without it affecting their identity.

use vstd::prelude::*;
use vstd::std_specs::cmp::{PartialEqSpec, PartialEqSpecImpl, PartialOrdSpec, PartialOrdSpecImpl};

verus! {

/// Identifies a source file.
#[derive(Debug, Clone, Copy, PartialEq, Eq, Structural, Hash)]
pub struct FileId(pub u32);

/// A range of offsets within one source file.
#[derive(Debug, Clone, Copy, PartialEq, Eq, Structural)]
pub struct Span {
    pub file_id: FileId,
    pub start: u32,
    pub end: u32,
}

/// A value with optional source-location metadata.
///
/// The metadata never takes part in equality, hashing or the wire encoding.
#[derive(Debug, Clone, Default)]
pub struct Spanned<T> {
    pub inner: T,
    pub span: Option<Span>,
}

impl<T> Spanned<T> {
    pub fn with_span(inner: T, span: Span) -> (r: Self)
        ensures
            r.inner == inner,
            r.span == Some(span),
    {
        Spanned { inner, span: Some(span) }
    }

    pub fn without_span(inner: T) -> (r: Self)
        ensures
            r.inner == inner,
            r.span is None,
    {
        Spanned { inner, span: None }
    }

    pub fn into_inner(self) -> (r: T)
        ensures
            r == self.inner,
    {
        self.inner
    }

    pub fn span(&self) -> (r: &Option<Span>)
        ensures
            *r == self.span,
    {
        &self.span
    }
}

impl<T: PartialEq + PartialEqSpec> PartialEq for Spanned<T> {
    fn eq(&self, other: &Self) -> (r: bool)
        ensures
            T::obeys_eq_spec() ==> r == self.inner.eq_spec(&other.inner),
    {
        self.inner == other.inner
    }
}

impl<T: PartialEq + PartialEqSpec> PartialEqSpecImpl for Spanned<T> {
    open spec fn obeys_eq_spec() -> bool {
        T::obeys_eq_spec()
    }

    open spec fn eq_spec(&self, other: &Self) -> bool {
        self.inner.eq_spec(&other.inner)
    }
}

impl<T: Eq + PartialEqSpec> Eq for Spanned<T> {
}

impl<T> std::ops::Deref for Spanned<T> {
    type Target = T;

    fn deref(&self) -> (r: &T)
        ensures
            *r == self.inner,
    {
        &self.inner
    }
}

impl<T> std::ops::DerefMut for Spanned<T> {
    fn deref_mut(&mut self) -> (r: &mut T) {
        &mut self.inner
    }
}

impl<T: std::hash::Hash> std::hash::Hash for Spanned<T> {
    /// Relies on `Hash::hash` of the inner value: the span takes no part.
    #[verifier::external_body]
    fn hash<H: std::hash::Hasher>(&self, state: &mut H) {
        self.inner.hash(state);
    }
}

impl<T: PartialOrd + PartialOrdSpec + PartialEqSpec> PartialOrd for Spanned<T> {
    fn partial_cmp(&self, other: &Self) -> (r: Option<std::cmp::Ordering>)
        ensures
            T::obeys_partial_cmp_spec() ==> r == self.inner.partial_cmp_spec(&other.inner),
    {
        self.inner.partial_cmp(&other.inner)
    }
}

impl<T: PartialOrd + PartialOrdSpec + PartialEqSpec> PartialOrdSpecImpl for Spanned<T> {
    open spec fn obeys_partial_cmp_spec() -> bool {
        T::obeys_partial_cmp_spec()
    }

    open spec fn partial_cmp_spec(&self, other: &Self) -> Option<std::cmp::Ordering> {
        self.inner.partial_cmp_spec(&other.inner)
    }
}

} // verus!
