//! Messages, reply chains and the bot's own identity.
use vstd::prelude::*;

verus! {

/// What a message or chat identifier must offer: it is copied freely,
/// compared, ordered, hashed and shown.
pub trait Id: Copy + Eq + Ord + core::hash::Hash + core::fmt::Debug + core::fmt::Display {

}

impl Id for i64 {

}

impl Id for u64 {

}

/// What a message replies to.
#[derive(Debug, PartialEq, Eq, PartialOrd, Ord, Hash)]
pub enum ReplyTarget<M, C> {
    /// The full message replied to; its own reply chain is not walked.
    Message(Box<Message<M, C>>),
    /// Only the identifier of the message replied to.
    MessageId(M),
    /// There was a reply link, and it was deliberately not followed.
    Prunned,
    /// The message replies to nothing.
    NotReplying,
}

/// The payload shared by inbound and outbound messages.
#[derive(Debug, PartialEq, Eq, PartialOrd, Ord, Hash)]
pub struct MessageData<M, C> {
    pub chat_id: C,
    pub content: String,
    pub reply_target: ReplyTarget<M, C>,
}

/// A delivered message.
#[derive(Debug, PartialEq, Eq, PartialOrd, Ord, Hash)]
pub struct Message<M, C> {
    pub id: M,
    pub data: MessageData<M, C>,
}

/// A message to be sent, with no identifier yet.
#[derive(Debug, PartialEq, Eq, PartialOrd, Ord, Hash)]
pub struct NewMessage<M, C> {
    pub data: MessageData<M, C>,
}

/// The bot's own mention handle.
#[derive(Debug, Clone, PartialEq, Eq, PartialOrd, Ord, Hash)]
pub struct Bot {
    pub handle: String,
}

impl<M: Copy, C: Copy> ReplyTarget<M, C> {
    /// A copy of this reply target, equal to it.
    pub fn duplicate(&self) -> (r: Self)
        ensures
            r == *self,
        decreases self,
    {
        match self {
            ReplyTarget::Message(m) => ReplyTarget::Message(Box::new(m.duplicate())),
            ReplyTarget::MessageId(id) => ReplyTarget::MessageId(*id),
            ReplyTarget::Prunned => ReplyTarget::Prunned,
            ReplyTarget::NotReplying => ReplyTarget::NotReplying,
        }
    }
}

impl<M: Copy, C: Copy> ReplyTarget<M, C> {
    /// The message that an outbound message with this target replies to:
    /// one is named by a resolved message or by an identifier; `Prunned` and
    /// `NotReplying` send no reply.
    pub fn reply_id(&self) -> (r: Option<M>)
        ensures
            r == match self {
                ReplyTarget::Message(m) => Some(m.id),
                ReplyTarget::MessageId(id) => Some(*id),
                _ => None,
            },
    {
        match self {
            ReplyTarget::Message(m) => Some(m.id),
            ReplyTarget::MessageId(id) => Some(*id),
            _ => None,
        }
    }
}

impl<M: Copy, C: Copy> Message<M, C> {
    /// A copy of this message, equal to it.
    pub fn duplicate(&self) -> (r: Self)
        ensures
            r == *self,
        decreases self,
    {
        Message {
            id: self.id,
            data: MessageData {
                chat_id: self.data.chat_id,
                content: self.data.content.clone(),
                reply_target: self.data.reply_target.duplicate(),
            },
        }
    }
}

/// A platform event as the transport sees it: a text message (or channel post)
/// when `text` holds its text, any other kind of message otherwise, with the
/// message it replies to, if any.
#[derive(Debug, PartialEq, Eq)]
pub struct Post<M, C> {
    pub id: M,
    pub chat_id: C,
    pub text: Option<String>,
    pub reply_to: Option<Box<Post<M, C>>>,
}

/// The message that a post becomes. Only text posts become messages. When
/// `follow` holds, a reply link leads to the replied-to post's own message,
/// whose reply link is in turn never followed (it is `Prunned`); a link to a
/// post that is no text message counts as no reply.
pub open spec fn message_of<M, C>(post: Post<M, C>, follow: bool) -> Option<Message<M, C>>
    decreases post,
{
    match post.text {
        None => None,
        Some(text) => Some(
            Message {
                id: post.id,
                data: MessageData {
                    chat_id: post.chat_id,
                    content: text,
                    reply_target: if !follow {
                        ReplyTarget::Prunned
                    } else {
                        match post.reply_to {
                            Some(replied) => match message_of(*replied, false) {
                                Some(m) => ReplyTarget::Message(Box::new(m)),
                                None => ReplyTarget::NotReplying,
                            },
                            None => ReplyTarget::NotReplying,
                        }
                    },
                },
            },
        ),
    }
}

/// How many reply links can be followed from a reply target.
pub open spec fn reply_depth<M, C>(target: ReplyTarget<M, C>) -> nat
    decreases target,
{
    match target {
        ReplyTarget::Message(m) => 1 + reply_depth(m.data.reply_target),
        _ => 0,
    }
}

fn message_from_post<M: Copy, C: Copy>(post: &Post<M, C>, follow: bool) -> (r: Option<
    Message<M, C>,
>)
    ensures
        r == message_of(*post, follow),
    decreases (if follow { 1nat } else { 0nat }),
{
    match &post.text {
        None => None,
        Some(text) => {
            let reply_target = if !follow {
                ReplyTarget::Prunned
            } else {
                match &post.reply_to {
                    Some(replied) => match message_from_post(replied, false) {
                        Some(m) => ReplyTarget::Message(Box::new(m)),
                        None => ReplyTarget::NotReplying,
                    },
                    None => ReplyTarget::NotReplying,
                }
            };
            Some(
                Message {
                    id: post.id,
                    data: MessageData { chat_id: post.chat_id, content: text.clone(), reply_target },
                },
            )
        },
    }
}

impl<M: Copy, C: Copy> Post<M, C> {
    /// The message that this post becomes, if it is a text post: the reply
    /// chain is resolved one level deep and no further.
    pub fn to_message(&self) -> (r: Option<Message<M, C>>)
        ensures
            r == message_of(*self, true),
    {
        message_from_post(self, true)
    }
}

/// Whatever the posts, the message of a post holds at most one resolved reply,
/// and a resolved reply's own link is `Prunned`.
pub proof fn lemma_reply_chain_pruned<M, C>(post: Post<M, C>)
    ensures
        match message_of(post, true) {
            Some(m) => {
                &&& reply_depth(m.data.reply_target) <= 1
                &&& (m.data.reply_target matches ReplyTarget::Message(replied)
                    ==> replied.data.reply_target == ReplyTarget::<M, C>::Prunned)
            },
            None => true,
        },
{
    match post.reply_to {
        Some(replied) => {
            let inner = message_of(*replied, false);
            if let Some(m) = inner {
                assert(reply_depth(m.data.reply_target) == 0);
            }
        },
        None => {},
    }
}

} // verus!
