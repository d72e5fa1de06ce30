//! Errors that are shown to users as text.
use vstd::prelude::*;

verus! {

/// An error that has a text for the user.
pub trait Describe {
    /// `text` is a description of this error.
    spec fn is_description(&self, text: Seq<char>) -> bool;

    /// The text shown to the user for this error.
    fn description(&self) -> (r: String)
        ensures
            self.is_description(r@),
    ;
}

} // verus!
