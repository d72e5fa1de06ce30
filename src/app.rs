//! The dispatch of inbound messages to an ordered list of handlers.
use vstd::prelude::*;
use crate::describe::Describe;
use crate::domain::{Bot, Id, Message, NewMessage};
use crate::handler::Handler;

verus! {

/// A failure of the receiver or of a handler's sender.
#[derive(Debug, Clone)]
pub enum AppError<R, H> {
    Receiver(R),
    Handler(H),
}

impl<R: Describe, H: Describe> Describe for AppError<R, H> {
    open spec fn is_description(&self, text: Seq<char>) -> bool {
        match self {
            AppError::Receiver(cause) => cause.is_description(text),
            AppError::Handler(cause) => cause.is_description(text),
        }
    }

    fn description(&self) -> (r: String) {
        match self {
            AppError::Receiver(cause) => cause.description(),
            AppError::Handler(cause) => cause.description(),
        }
    }
}

/// The bot's identity and its handlers, in the order they are offered messages.
#[derive(Debug, Clone)]
pub struct App<H> {
    pub config: Bot,
    pub handlers: Vec<H>,
}

/// `r` is what offering `message` to `handlers` in order gives: the first
/// handler that claims it, with its answer, every handler before it having
/// declined; or nothing, every handler having declined.
pub open spec fn dispatched<M, C, H: Handler<M, C>>(
    handlers: Seq<H>,
    bot: Bot,
    message: Message<M, C>,
    r: Option<(usize, NewMessage<M, C>)>,
) -> bool {
    match r {
        None => forall|i: int|
            0 <= i < handlers.len() ==> #[trigger] handlers[i].responds(bot, message, None),
        Some((k, out)) => {
            &&& k < handlers.len()
            &&& handlers[k as int].responds(bot, message, Some(out))
            &&& forall|i: int| 0 <= i < k ==> #[trigger] handlers[i].responds(bot, message, None)
        },
    }
}

impl<H> App<H> {
    /// An app with no handler yet.
    pub fn new(config: Bot) -> (r: Self)
        ensures
            r.config == config,
            r.handlers@ == Seq::<H>::empty(),
    {
        App { config, handlers: Vec::new() }
    }

    /// The app with `handler` offered messages after the present ones.
    pub fn handler(self, handler: H) -> (r: Self)
        ensures
            r.config == self.config,
            r.handlers@ == self.handlers@.push(handler),
    {
        let mut this = self;
        this.handlers.push(handler);
        this
    }

    /// Offers `message` to the handlers in order and stops at the first that
    /// claims it: its position and its answer, or `None` where none claims it.
    pub fn dispatch<M: Id, C: Id>(&self, message: &Message<M, C>) -> (r: Option<(usize, NewMessage<M, C>)>) where
        H: Handler<M, C>,

        ensures
            dispatched(self.handlers@, self.config, *message, r),
    {
        let mut i: usize = 0;
        while i < self.handlers.len()
            invariant
                i <= self.handlers.len(),
                forall|j: int|
                    0 <= j < i ==> #[trigger] self.handlers@[j].responds(self.config, *message, None),
            decreases self.handlers.len() - i,
        {
            match self.handlers[i].respond(&self.config, message) {
                Some(out) => {
                    return Some((i, out));
                },
                None => {},
            }
            i = i + 1;
        }
        None
    }
}

/// Where the first handler never claims a message, a dispatch among two
/// handlers gives the second handler's answer or nothing.
pub proof fn lemma_dispatch_passes_over_decliner<M, C, H: Handler<M, C>>(
    handlers: Seq<H>,
    bot: Bot,
    message: Message<M, C>,
    r: Option<(usize, NewMessage<M, C>)>,
)
    requires
        handlers.len() == 2,
        forall|o: Option<NewMessage<M, C>>| #[trigger]
            handlers[0].responds(bot, message, o) ==> o is None,
        dispatched(handlers, bot, message, r),
    ensures
        match r {
            Some((k, out)) => k == 1 && handlers[1].responds(bot, message, Some(out)),
            None => handlers[1].responds(bot, message, None),
        },
{
    if let Some((k, out)) = r {
        if k == 0 {
            assert(handlers[0].responds(bot, message, Some(out)));
        }
    } else {
        assert(handlers[1].responds(bot, message, None));
    }
}

/// Where the first handler always claims a message, a dispatch gives its
/// answer, and no later handler's.
pub proof fn lemma_dispatch_stops_at_claimer<M, C, H: Handler<M, C>>(
    handlers: Seq<H>,
    bot: Bot,
    message: Message<M, C>,
    r: Option<(usize, NewMessage<M, C>)>,
)
    requires
        handlers.len() >= 1,
        forall|o: Option<NewMessage<M, C>>| #[trigger]
            handlers[0].responds(bot, message, o) ==> o is Some,
        dispatched(handlers, bot, message, r),
    ensures
        r matches Some((k, out)) && k == 0 && handlers[0].responds(bot, message, Some(out)),
{
    if r is None {
        assert(handlers[0].responds(bot, message, None));
    } else {
        let (k, out) = r->Some_0;
        if k > 0 {
            assert(handlers[0].responds(bot, message, None));
        }
    }
}

} // verus!
