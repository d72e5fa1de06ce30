//! Carrying out a request.
use vstd::prelude::*;
use crate::domain::NewMessage;

verus! {

/// Turns a request into the message to send, or fails.
pub trait Command<R, M, C> {
    type Error;

    /// `r` is an outcome that carrying out `request` may have.
    spec fn executes_to(&self, request: R, r: Result<NewMessage<M, C>, Self::Error>) -> bool;

    fn execute(&self, request: R) -> (r: Result<NewMessage<M, C>, Self::Error>)
        ensures
            self.executes_to(request, r),
    ;
}

} // verus!
