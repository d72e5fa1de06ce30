//! Recognising a request in an inbound message.
use vstd::prelude::*;
use crate::domain::{Bot, Message};

verus! {

/// Decides whether a message names a request, and reads it.
pub trait Parser<M, C> {
    type Error;
    type Request;

    /// `r` is an outcome that reading `message` may have: `Ok(None)` where the
    /// message names no such request, an error where it names one badly.
    spec fn parses_to(
        &self,
        bot: Bot,
        message: Message<M, C>,
        r: Result<Option<Self::Request>, Self::Error>,
    ) -> bool;

    fn parse(&self, bot: &Bot, message: &Message<M, C>) -> (r: Result<
        Option<Self::Request>,
        Self::Error,
    >)
        ensures
            self.parses_to(*bot, *message, r),
    ;
}

/// What a request recognition can come to.
#[derive(Debug, Clone, PartialEq, Eq)]
pub enum Response<T, E> {
    Unrecognized,
    Success(T),
    Error(E),
}

} // verus!
