//! The textual container marker for persisted state: a host wraps the
//! binary encoding of [`crate::view::EditorView`] in its text storage
//! format under this newtype.

use vstd::prelude::*;

verus! {

/// A wrapper marking a value for the textual storage format.
pub struct Ron<T>(pub T);

impl<T> Ron<T> {
    /// Unwraps the marked value.
    pub fn into_inner(self) -> (r: T)
        ensures
            r == self.0,
    {
        self.0
    }
}

} // verus!
