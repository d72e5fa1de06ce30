//! What the message channel reports besides messages.
use vstd::prelude::*;
use vstd::string::StringExecFns;
use crate::describe::Describe;

verus! {

/// The inbound stream has ended: the dispatch loop stops, with no fault.
#[derive(Debug, Clone, Copy, PartialEq, Eq)]
pub struct Disconnected;

impl Describe for Disconnected {
    open spec fn is_description(&self, text: Seq<char>) -> bool {
        text == "message channel disconnected"@
    }

    fn description(&self) -> (r: String) {
        String::from_str("message channel disconnected")
    }
}

} // verus!
