use std::cell::Cell;

use sed_bot::app::App;
use sed_bot::describe::Describe;
use sed_bot::domain::{Bot, Message, MessageData, NewMessage, Post, ReplyTarget};
use sed_bot::handler::{DefaultHandler, Handler};
use sed_bot::help::{HelpCommand, HelpRequestParser, HELP_TEXT};
use sed_bot::replace::{CommandError, ParseError, ReplaceCommand, RequestParser};
use sed_bot::request::Parser;
use sed_bot::command::Command;

fn bot() -> Bot {
    Bot { handle: String::from("sedbot") }
}

fn message(id: u64, text: &str, reply_target: ReplyTarget<u64, u64>) -> Message<u64, u64> {
    Message { id, data: MessageData { chat_id: 7, content: String::from(text), reply_target } }
}

fn help_handler() -> DefaultHandler<HelpRequestParser, HelpCommand, ()> {
    DefaultHandler { request_parser: HelpRequestParser, command: HelpCommand, sender: () }
}

fn replace_handler() -> DefaultHandler<RequestParser, ReplaceCommand, ()> {
    DefaultHandler { request_parser: RequestParser, command: ReplaceCommand, sender: () }
}

fn replying_to(original: Message<u64, u64>) -> ReplyTarget<u64, u64> {
    ReplyTarget::Message(Box::new(original))
}

#[test]
fn help_end_to_end() {
    let input = message(11, "/help", ReplyTarget::NotReplying);
    let out = help_handler().respond(&bot(), &input).unwrap();
    assert_eq!(out.data.content, HELP_TEXT);
    assert_eq!(out.data.chat_id, 7);
    assert_eq!(out.data.reply_target, ReplyTarget::MessageId(11));
}

#[test]
fn help_recognised_forms() {
    let parse = |text: &str| {
        let m = message(1, text, ReplyTarget::NotReplying);
        Parser::<u64, u64>::parse(&HelpRequestParser, &bot(), &m).unwrap().is_some()
    };
    assert!(parse("/help"));
    assert!(parse("  /help\n"));
    assert!(parse("/help@sedbot"));
    assert!(!parse("/help@otherbot"));
    assert!(!parse("/helpme"));
    assert!(!parse("please /help"));
    assert!(!parse(" /help@sedbot"));
}

#[test]
fn substitution_end_to_end() {
    let original = message(20, "hello world", ReplyTarget::NotReplying);
    let input = message(21, "s/world/there/", replying_to(original));
    let out = replace_handler().respond(&bot(), &input).unwrap();
    assert_eq!(out.data.content, "hello there");
    assert_eq!(out.data.reply_target, ReplyTarget::MessageId(20));
    assert_eq!(out.data.chat_id, 7);
}

#[test]
fn substitution_with_flags_and_groups() {
    let original = message(30, "Foo foo FOO", ReplyTarget::NotReplying);
    let input = message(31, "s/(f)oo/<$1>/ig", replying_to(original));
    let out = replace_handler().respond(&bot(), &input).unwrap();
    assert_eq!(out.data.content, "<F> <f> <F>");
}

#[test]
fn substitution_is_not_idempotent() {
    let once = {
        let original = message(40, "aaa", ReplyTarget::NotReplying);
        let input = message(41, "s/a/ba/", replying_to(original));
        replace_handler().respond(&bot(), &input).unwrap().data.content
    };
    assert_eq!(once, "baaa");
    let twice = {
        let original = message(42, &once, ReplyTarget::NotReplying);
        let input = message(43, "s/a/ba/", replying_to(original));
        replace_handler().respond(&bot(), &input).unwrap().data.content
    };
    assert_eq!(twice, "bbaaa");
    assert_ne!(once, twice);
}

#[test]
fn global_touches_every_match() {
    let original = message(50, "a.b.c", ReplyTarget::NotReplying);
    let input = message(51, "s/\\./-/g", replying_to(original));
    let out = replace_handler().respond(&bot(), &input).unwrap();
    assert_eq!(out.data.content, "a-b-c");
    let original = message(52, "a.b.c", ReplyTarget::NotReplying);
    let input = message(53, "s/\\./-/", replying_to(original));
    let out = replace_handler().respond(&bot(), &input).unwrap();
    assert_eq!(out.data.content, "a-b.c");
}

#[test]
fn missing_query_is_reported() {
    let input = message(60, "s/a", ReplyTarget::NotReplying);
    let out = replace_handler().respond(&bot(), &input).unwrap();
    assert!(out.data.content.contains("missing query"));
    assert_eq!(out.data.reply_target, ReplyTarget::MessageId(60));
}

#[test]
fn rule_without_target_is_reported() {
    let input = message(61, "s/a/b", ReplyTarget::NotReplying);
    let out = replace_handler().respond(&bot(), &input).unwrap();
    assert_eq!(out.data.content, CommandError::MissingMessage.description());
    assert_eq!(out.data.reply_target, ReplyTarget::MessageId(61));
}

#[test]
fn bad_flag_and_bad_regex_are_reported() {
    let input = message(62, "s/a/b/q", ReplyTarget::NotReplying);
    let out = replace_handler().respond(&bot(), &input).unwrap();
    assert_eq!(out.data.content, "'q' is an unrecognized flag");
    let input = message(63, "s/a/b/gg", ReplyTarget::NotReplying);
    let out = replace_handler().respond(&bot(), &input).unwrap();
    assert_eq!(out.data.content, "'g' flag is duplicated");
    let input = message(64, "s/(/b/", ReplyTarget::NotReplying);
    let out = replace_handler().respond(&bot(), &input).unwrap();
    assert!(out.data.content.starts_with("invalid query regex: "));
}

#[test]
fn text_without_rule_is_not_recognised() {
    for text in ["", "hello", "s", "/s", "s\\/", "S/a/b", "a/s"] {
        let m = message(70, text, ReplyTarget::NotReplying);
        let parsed = Parser::<u64, u64>::parse(&RequestParser, &bot(), &m);
        assert!(matches!(parsed, Ok(None)), "{text}");
        assert!(replace_handler().respond(&bot(), &m).is_none());
    }
}

#[test]
fn parse_reads_rule_after_first_marker() {
    let m = message(71, "well s/x\\/y/z/g", ReplyTarget::Prunned);
    let request = Parser::<u64, u64>::parse(&RequestParser, &bot(), &m).unwrap().unwrap();
    assert!(request.is_global);
    assert_eq!(request.query.as_str(), "x\\/y");
    assert_eq!(request.target, ReplyTarget::Prunned);
    assert!(matches!(
        Parser::<u64, u64>::parse(&RequestParser, &bot(), &message(72, "s/", ReplyTarget::NotReplying)),
        Err(ParseError::MissingQuery)
    ));
}

#[test]
fn rule_without_flags_reads_pattern_and_template() {
    let m = message(74, "s/a/b", ReplyTarget::NotReplying);
    let request = Parser::<u64, u64>::parse(&RequestParser, &bot(), &m).unwrap().unwrap();
    assert_eq!(request.query.as_str(), "a");
    assert_eq!(request.replacement, sed_bot::replace::Replacement::parse("b"));
    assert!(!request.is_global);
}

#[test]
fn uncompilable_pattern_is_invalid_regex() {
    let m = message(75, "s/(/x/", ReplyTarget::NotReplying);
    let parsed = Parser::<u64, u64>::parse(&RequestParser, &bot(), &m);
    match parsed {
        Err(e @ ParseError::InvalidRegex(_)) => {
            let text = e.description();
            if let ParseError::InvalidRegex(cause) = &e {
                assert_eq!(text, format!("invalid query regex: {}", cause));
            }
        },
        other => panic!("unexpected outcome {:?}", other.map(|r| r.is_some())),
    }
}

#[test]
fn dot_pattern_uses_unicode_default() {
    let original = message(76, "héllo", ReplyTarget::NotReplying);
    let input = message(77, "s/./x/g", replying_to(original));
    let out = replace_handler().respond(&bot(), &input).unwrap();
    assert_eq!(out.data.content, "xxxxx");
}

#[test]
fn replace_command_without_reply_fails() {
    let m = message(73, "s/a/b/", ReplyTarget::MessageId(3));
    let request = Parser::<u64, u64>::parse(&RequestParser, &bot(), &m).unwrap().unwrap();
    let result: Result<NewMessage<u64, u64>, CommandError> = ReplaceCommand.execute(request);
    assert!(matches!(result, Err(CommandError::MissingMessage)));
}

#[test]
fn reply_chain_is_pruned() {
    let third = Post { id: 1u64, chat_id: 7u64, text: Some(String::from("first")), reply_to: None };
    let second = Post { id: 2, chat_id: 7, text: Some(String::from("second")), reply_to: Some(Box::new(third)) };
    let first = Post { id: 3, chat_id: 7, text: Some(String::from("third")), reply_to: Some(Box::new(second)) };
    let m = first.to_message().unwrap();
    match m.data.reply_target {
        ReplyTarget::Message(replied) => {
            assert_eq!(replied.id, 2);
            assert_eq!(replied.data.content, "second");
            assert_eq!(replied.data.reply_target, ReplyTarget::Prunned);
        },
        other => panic!("unexpected reply target {:?}", other),
    }
}

#[test]
fn non_text_posts_are_skipped() {
    let photo = Post { id: 1u64, chat_id: 7u64, text: None, reply_to: None };
    assert!(photo.to_message().is_none());
    let reply = Post { id: 2, chat_id: 7, text: Some(String::from("hi")), reply_to: Some(Box::new(photo)) };
    assert_eq!(reply.to_message().unwrap().data.reply_target, ReplyTarget::NotReplying);
    let alone = Post { id: 3u64, chat_id: 7u64, text: Some(String::from("x")), reply_to: None };
    assert_eq!(alone.to_message().unwrap().data.reply_target, ReplyTarget::NotReplying);
}

#[test]
fn reply_ids() {
    let m = message(5, "x", ReplyTarget::NotReplying);
    assert_eq!(ReplyTarget::<u64, u64>::Message(Box::new(m)).reply_id(), Some(5));
    assert_eq!(ReplyTarget::<u64, u64>::MessageId(9).reply_id(), Some(9));
    assert_eq!(ReplyTarget::<u64, u64>::Prunned.reply_id(), None);
    assert_eq!(ReplyTarget::<u64, u64>::NotReplying.reply_id(), None);
    let copy = message(6, "y", ReplyTarget::MessageId(2)).duplicate();
    assert_eq!(copy, message(6, "y", ReplyTarget::MessageId(2)));
}

struct Counting<'a> {
    calls: &'a Cell<u32>,
    answer: Option<&'static str>,
}

impl<'a> Handler<u64, u64> for Counting<'a> {
    fn responds(&self, _bot: Bot, _input: Message<u64, u64>, r: Option<NewMessage<u64, u64>>) -> bool {
        r.as_ref().map(|out| out.data.content.as_str()) == self.answer
    }

    fn respond(&self, _bot: &Bot, input: &Message<u64, u64>) -> Option<NewMessage<u64, u64>> {
        self.calls.set(self.calls.get() + 1);
        self.answer.map(|text| NewMessage {
            data: MessageData {
                chat_id: input.data.chat_id,
                content: String::from(text),
                reply_target: ReplyTarget::MessageId(input.id),
            },
        })
    }
}

#[test]
fn dispatch_passes_over_declining_handler() {
    let first = Cell::new(0);
    let second = Cell::new(0);
    let app = App::new(bot())
        .handler(Counting { calls: &first, answer: None })
        .handler(Counting { calls: &second, answer: Some("second") });
    let (index, out) = app.dispatch(&message(80, "anything", ReplyTarget::NotReplying)).unwrap();
    assert_eq!(index, 1);
    assert_eq!(out.data.content, "second");
    assert_eq!((first.get(), second.get()), (1, 1));
}

#[test]
fn dispatch_stops_at_claiming_handler() {
    let first = Cell::new(0);
    let second = Cell::new(0);
    let app = App::new(bot())
        .handler(Counting { calls: &first, answer: Some("first") })
        .handler(Counting { calls: &second, answer: Some("second") });
    let (index, out) = app.dispatch(&message(81, "anything", ReplyTarget::NotReplying)).unwrap();
    assert_eq!(index, 0);
    assert_eq!(out.data.content, "first");
    assert_eq!((first.get(), second.get()), (1, 0));
}

#[test]
fn dispatch_drops_unclaimed_message() {
    let calls = Cell::new(0);
    let app = App::new(bot()).handler(Counting { calls: &calls, answer: None });
    assert!(app.dispatch(&message(82, "anything", ReplyTarget::NotReplying)).is_none());
    assert_eq!(calls.get(), 1);
    let empty: App<Counting> = App::new(bot());
    assert!(empty.dispatch(&message(83, "x", ReplyTarget::NotReplying)).is_none());
}

#[test]
fn help_and_replace_dispatch() {
    let app = App::new(bot()).handler(help_handler());
    let (index, out) = app.dispatch(&message(90, "/help@sedbot", ReplyTarget::NotReplying)).unwrap();
    assert_eq!(index, 0);
    assert_eq!(out.data.content, HELP_TEXT);
}
