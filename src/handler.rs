//! Handlers: one parser, one command and one sender bound together.
use vstd::prelude::*;
use crate::command::Command;
use crate::describe::Describe;
use crate::domain::{Bot, Id, Message, MessageData, NewMessage, ReplyTarget};
use crate::request::Parser;

verus! {

/// Decides what, if anything, to answer to an inbound message. `None` means
/// that the handler does not claim the message.
pub trait Handler<M, C> {
    /// `r` is an answer that this handler may give to `input`.
    spec fn responds(&self, bot: Bot, input: Message<M, C>, r: Option<NewMessage<M, C>>) -> bool;

    fn respond(&self, bot: &Bot, input: &Message<M, C>) -> (r: Option<NewMessage<M, C>>)
        ensures
            self.responds(*bot, *input, r),
    ;
}

/// A handler made of a request parser, a command, and the sender that its
/// answers go out through.
#[derive(Debug, Clone)]
pub struct DefaultHandler<R, C, S> {
    pub request_parser: R,
    pub command: C,
    pub sender: S,
}

/// `out` carries `text` back to the chat of `input`, as a reply to it.
pub open spec fn is_reply_with<M, C>(input: Message<M, C>, text: Seq<char>, out: NewMessage<M, C>) -> bool {
    &&& out.data.content@ == text
    &&& out.data.chat_id == input.data.chat_id
    &&& out.data.reply_target == ReplyTarget::<M, C>::MessageId(input.id)
}

/// `r` reports the error `e` to the sender of `input`.
pub open spec fn reports<M, C, E: Describe>(input: Message<M, C>, e: E, r: Option<NewMessage<M, C>>) -> bool {
    r matches Some(out) && e.is_description(out.data.content@) && is_reply_with(
        input,
        out.data.content@,
        out,
    )
}

/// The error reply to `input`, with `text`.
pub fn error_reply<M: Id, C: Id>(input: &Message<M, C>, text: String) -> (r: NewMessage<M, C>)
    ensures
        is_reply_with(*input, text@, r),
{
    NewMessage {
        data: MessageData {
            content: text,
            chat_id: input.data.chat_id,
            reply_target: ReplyTarget::MessageId(input.id),
        },
    }
}

impl<M: Id, Ci: Id, R, Co, S> Handler<M, Ci> for DefaultHandler<R, Co, S> where
    R: Parser<M, Ci>,
    R::Error: Describe,
    Co: Command<R::Request, M, Ci>,
    Co::Error: Describe,
 {
    /// Parsing decides: no request leaves the message unclaimed; a parse
    /// error is reported; a request is carried out, and its result, or its
    /// error reported, is the answer.
    open spec fn responds(&self, bot: Bot, input: Message<M, Ci>, r: Option<NewMessage<M, Ci>>) -> bool {
        exists|parsed: Result<Option<R::Request>, R::Error>|
            #![trigger self.request_parser.parses_to(bot, input, parsed)]
            self.request_parser.parses_to(bot, input, parsed) && match parsed {
                Ok(None) => r is None,
                Err(e) => reports(input, e, r),
                Ok(Some(request)) => exists|done: Result<NewMessage<M, Ci>, Co::Error>|
                    #![trigger self.command.executes_to(request, done)]
                    self.command.executes_to(request, done) && match done {
                        Ok(m) => r == Some(m),
                        Err(e) => reports(input, e, r),
                    },
            }
    }

    fn respond(&self, bot: &Bot, input: &Message<M, Ci>) -> (r: Option<NewMessage<M, Ci>>) {
        let parsed = self.request_parser.parse(bot, input);
        let ghost parsed_ghost = parsed;
        match parsed {
            Ok(None) => None,
            Ok(Some(request)) => {
                let ghost request_ghost = request;
                let done = self.command.execute(request);
                let ghost done_ghost = done;
                let r = match done {
                    Ok(m) => Some(m),
                    Err(e) => Some(error_reply(input, e.description())),
                };
                assert(self.command.executes_to(request_ghost, done_ghost));
                r
            },
            Err(e) => Some(error_reply(input, e.description())),
        }
    }
}

} // verus!
