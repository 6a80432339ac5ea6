//! Values that may be unset while the IR is resolved, but must be set when written.

use vstd::prelude::*;
use vstd::std_specs::convert::FromSpecImpl;

verus! {

/// A value that may be unset while the IR is being resolved, but must be set
/// once it is encoded. Decoding always yields a set value.
#[derive(Debug, Clone, Copy, Hash, PartialEq, Eq)]
pub struct SerOption<T>(pub Option<T>);

impl<T> Default for SerOption<T> {
    fn default() -> (r: Self)
        ensures
            r.0 is None,
    {
        SerOption(None)
    }
}

impl<T> From<Option<T>> for SerOption<T> {
    fn from(opt: Option<T>) -> (r: Self)
        ensures
            r.0 == opt,
    {
        SerOption(opt)
    }
}

impl<T> FromSpecImpl<Option<T>> for SerOption<T> {
    open spec fn obeys_from_spec() -> bool {
        true
    }

    open spec fn from_spec(opt: Option<T>) -> Self {
        SerOption(opt)
    }
}

impl<T> std::ops::Deref for SerOption<T> {
    type Target = Option<T>;

    fn deref(&self) -> (r: &Option<T>)
        ensures
            *r == self.0,
    {
        &self.0
    }
}

impl<T> std::ops::DerefMut for SerOption<T> {
    fn deref_mut(&mut self) -> (r: &mut Option<T>) {
        &mut self.0
    }
}

} // verus!
