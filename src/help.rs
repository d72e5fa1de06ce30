//! The `/help` command.
use vstd::prelude::*;
use vstd::string::StringExecFns;
use crate::command::Command;
use crate::describe::Describe;
use crate::domain::{Bot, Id, Message, MessageData, NewMessage, ReplyTarget};
use crate::request::Parser;
use crate::text::{chars_of, string_of};

verus! {

/// The usage text that `/help` answers with.
pub const HELP_TEXT: &'static str =
    "This bot performs replacements on messages based on regular expressions.\n\n- /help -- shows this message\n\n- s/regex/replacement/flags -- performs a replacement in the previous message or in the message you're replying to.";

/// An error that cannot happen.
pub type Unfallible = core::convert::Infallible;

impl Describe for Unfallible {
    /// No value of this type exists, so no text is ever asked of it.
    open spec fn is_description(&self, text: Seq<char>) -> bool {
        true
    }

    fn description(&self) -> (r: String) {
        String::new()
    }
}

/// Recognises `/help`.
#[derive(Debug, Clone, Copy)]
pub struct HelpRequestParser;

/// A request for the usage text, with what is needed to answer it.
#[derive(Debug, Clone, Copy, PartialEq, Eq, PartialOrd, Ord, Hash)]
pub struct HelpRequest<M, C> {
    pub original_message_id: M,
    pub chat_id: C,
}

/// The characters that `char::is_whitespace` accepts: Unicode's White_Space.
pub open spec fn is_white_space(c: char) -> bool {
    ||| '\u{9}' <= c <= '\u{d}'
    ||| c == ' '
    ||| c == '\u{85}'
    ||| c == '\u{a0}'
    ||| c == '\u{1680}'
    ||| '\u{2000}' <= c <= '\u{200a}'
    ||| c == '\u{2028}'
    ||| c == '\u{2029}'
    ||| c == '\u{202f}'
    ||| c == '\u{205f}'
    ||| c == '\u{3000}'
}

fn white_space(c: char) -> (r: bool)
    ensures
        r == is_white_space(c),
{
    ('\u{9}' <= c && c <= '\u{d}') || c == ' ' || c == '\u{85}' || c == '\u{a0}' || c == '\u{1680}'
        || ('\u{2000}' <= c && c <= '\u{200a}') || c == '\u{2028}' || c == '\u{2029}' || c
        == '\u{202f}' || c == '\u{205f}' || c == '\u{3000}'
}

pub open spec fn trim_start(s: Seq<char>) -> Seq<char>
    decreases s.len(),
{
    if s.len() > 0 && is_white_space(s[0]) {
        trim_start(s.drop_first())
    } else {
        s
    }
}

pub open spec fn trim_end(s: Seq<char>) -> Seq<char>
    decreases s.len(),
{
    if s.len() > 0 && is_white_space(s.last()) {
        trim_end(s.drop_last())
    } else {
        s
    }
}

/// `s` without white space at either end.
pub open spec fn trimmed(s: Seq<char>) -> Seq<char> {
    trim_end(trim_start(s))
}

/// The characters of `s` without white space at either end.
fn trim_chars(s: &Vec<char>) -> (r: Vec<char>)
    ensures
        r@ == trimmed(s@),
{
    let mut a: usize = 0;
    assert(s@.skip(0) == s@);
    while a < s.len() && white_space(s[a])
        invariant
            a <= s.len(),
            trim_start(s@) == trim_start(s@.skip(a as int)),
        decreases s.len() - a,
    {
        assert(s@.skip(a as int).drop_first() == s@.skip(a + 1));
        a = a + 1;
    }
    let mut b: usize = s.len();
    assert(s@.skip(a as int) == s@.subrange(a as int, b as int));
    while b > a && white_space(s[b - 1])
        invariant
            a <= b <= s.len(),
            trimmed(s@) == trim_end(s@.subrange(a as int, b as int)),
        decreases b,
    {
        assert(s@.subrange(a as int, b as int).drop_last() == s@.subrange(a as int, b - 1));
        b = b - 1;
    }
    let mut r: Vec<char> = Vec::new();
    let mut i: usize = a;
    while i < b
        invariant
            a <= i <= b <= s.len(),
            r@ == s@.subrange(a as int, i as int),
        decreases b - i,
    {
        r.push(s[i]);
        assert(s@.subrange(a as int, i + 1) == s@.subrange(a as int, i as int).push(s[i as int]));
        i = i + 1;
    }
    r
}

/// The text asks for help: `/help` with white space round it, or
/// `/help@handle` with the bot's own handle.
pub open spec fn help_requested(content: Seq<char>, handle: Seq<char>) -> bool {
    trimmed(content) == "/help"@ || content == "/help@"@ + handle
}

/// The help request that `message` carries, if any.
pub open spec fn help_request_of<M, C>(bot: Bot, message: Message<M, C>) -> Option<
    HelpRequest<M, C>,
> {
    if help_requested(message.data.content@, bot.handle@) {
        Some(HelpRequest { original_message_id: message.id, chat_id: message.data.chat_id })
    } else {
        None
    }
}

impl<M: Id, C: Id> Parser<M, C> for HelpRequestParser {
    type Error = Unfallible;

    type Request = HelpRequest<M, C>;

    open spec fn parses_to(
        &self,
        bot: Bot,
        message: Message<M, C>,
        r: Result<Option<HelpRequest<M, C>>, Unfallible>,
    ) -> bool {
        r == Ok::<Option<HelpRequest<M, C>>, Unfallible>(help_request_of(bot, message))
    }

    fn parse(&self, bot: &Bot, message: &Message<M, C>) -> (r: Result<
        Option<HelpRequest<M, C>>,
        Unfallible,
    >) {
        let content = chars_of(message.data.content.as_str());
        let trimmed_content = string_of(&trim_chars(&content));
        let matches_without_handle = trimmed_content == String::from_str("/help");
        let mut addressed = String::from_str("/help@");
        addressed.append(bot.handle.as_str());
        let matches_with_handle = message.data.content == addressed;
        if matches_with_handle || matches_without_handle {
            Ok(Some(HelpRequest { original_message_id: message.id, chat_id: message.data.chat_id }))
        } else {
            Ok(None)
        }
    }
}

/// Answers a help request with the usage text.
#[derive(Debug, Clone, Copy)]
pub struct HelpCommand;

/// `m` is the usage text, sent to the request's chat as a reply to the
/// message that asked for it.
pub open spec fn is_help_reply<M, C>(request: HelpRequest<M, C>, m: NewMessage<M, C>) -> bool {
    &&& m.data.content@ == HELP_TEXT@
    &&& m.data.chat_id == request.chat_id
    &&& m.data.reply_target == ReplyTarget::<M, C>::MessageId(request.original_message_id)
}

impl<M: Id, C: Id> Command<HelpRequest<M, C>, M, C> for HelpCommand {
    type Error = Unfallible;

    open spec fn executes_to(
        &self,
        request: HelpRequest<M, C>,
        r: Result<NewMessage<M, C>, Unfallible>,
    ) -> bool {
        r matches Ok(m) && is_help_reply(request, m)
    }

    fn execute(&self, request: HelpRequest<M, C>) -> (r: Result<NewMessage<M, C>, Unfallible>) {
        Ok(
            NewMessage {
                data: MessageData {
                    chat_id: request.chat_id,
                    content: String::from_str(HELP_TEXT),
                    reply_target: ReplyTarget::MessageId(request.original_message_id),
                },
            },
        )
    }
}

} // verus!
