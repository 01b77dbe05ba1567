//! A wrapper marking a header value that was present but optional to
//! extract.  The HTTP layer fills it; handlers unwrap it.

use vstd::prelude::*;

verus! {

/// An optionally extracted, typed header value.
#[derive(Debug, Clone, Copy)]
pub struct OptionalHeader<T>(pub T);

impl<T> OptionalHeader<T> {
    /// The extracted value.
    pub fn into_inner(self) -> (r: T)
        ensures
            r == self.0,
    {
        self.0
    }
}

} // verus!
