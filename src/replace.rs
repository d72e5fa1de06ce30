//! The substitution command: parsing `s/search/replacement/flags` and applying it.
use vstd::prelude::*;
use vstd::string::StrSliceExecFns;
use vstd::string::StringExecFns;
use vstd::string::to_string_from_display_ensures;
use vstd::utf8::encode_utf8;
use crate::command::Command;
use crate::describe::Describe;
use crate::domain::{Bot, Id, Message, MessageData, NewMessage, ReplyTarget};
use crate::flags::{flags_outcome, Flags};
use crate::matcher::{
    captures_of, char_debug, char_debug_text, compile, compiles, find_captures, regex_source,
};
use crate::request::Parser;
use crate::substitute::{matches_fit, replaced_count, substitute, substituted};
use crate::text::chars_of;

verus! {

/// Why a substitution command could not be read.
#[derive(Debug)]
pub enum ParseError {
    MissingQuery,
    UnrecognizedFlag(char),
    DuplicatedFlag(char),
    InvalidRegex(regex::Error),
}

impl Describe for ParseError {
    open spec fn is_description(&self, text: Seq<char>) -> bool {
        match self {
            ParseError::MissingQuery => text == "missing query regex in rule"@,
            ParseError::UnrecognizedFlag(c) => text == char_debug_text(*c)
                + " is an unrecognized flag"@,
            ParseError::DuplicatedFlag(c) => text == char_debug_text(*c) + " flag is duplicated"@,
            ParseError::InvalidRegex(cause) => exists|shown: String|
                to_string_from_display_ensures::<regex::Error>(cause, shown) && text
                    == "invalid query regex: "@ + shown@,
        }
    }

    fn description(&self) -> (r: String) {
        match self {
            ParseError::MissingQuery => String::from_str("missing query regex in rule"),
            ParseError::UnrecognizedFlag(c) => {
                let mut r = char_debug(*c);
                r.append(" is an unrecognized flag");
                r
            },
            ParseError::DuplicatedFlag(c) => {
                let mut r = char_debug(*c);
                r.append(" flag is duplicated");
                r
            },
            ParseError::InvalidRegex(cause) => {
                let mut r = String::from_str("invalid query regex: ");
                let cause_text = cause.to_string();
                r.append(cause_text.as_str());
                r
            },
        }
    }
}

/// Why a substitution could not be carried out.
#[derive(Debug, Clone, Copy, PartialEq, Eq)]
pub enum CommandError {
    /// The command does not reply to a text message.
    MissingMessage,
}

impl Describe for CommandError {
    open spec fn is_description(&self, text: Seq<char>) -> bool {
        text == "reply to a message to perform a replacement on it"@
    }

    fn description(&self) -> (r: String) {
        String::from_str("reply to a message to perform a replacement on it")
    }
}

/// The escape bit before position `i`: a `\` sets it unless it was set, and
/// any other character clears it.
pub open spec fn escaped_before(s: Seq<char>, i: int) -> bool
    decreases i,
{
    if i <= 0 {
        false
    } else {
        s[i - 1] == '\\' && !escaped_before(s, i - 1)
    }
}

/// Position `i` holds a `/` that no `\` escapes.
pub open spec fn is_delimiter(s: Seq<char>, i: int) -> bool {
    s[i] == '/' && !escaped_before(s, i)
}

/// `k` is the first unescaped `/` of `s`.
pub open spec fn first_delimiter(s: Seq<char>, k: int) -> bool {
    0 <= k < s.len() && is_delimiter(s, k) && forall|j: int| 0 <= j < k ==> !is_delimiter(s, j)
}

/// `s` split at its first unescaped `/`: the text before it and the text
/// after it, or nothing where there is no such `/`.
pub open spec fn delimiter_split(s: Seq<char>) -> Option<(Seq<char>, Seq<char>)> {
    if exists|k: int| first_delimiter(s, k) {
        let k = choose|k: int| first_delimiter(s, k);
        Some((s.take(k), s.skip(k + 1)))
    } else {
        None
    }
}

proof fn lemma_first_delimiter_unique(s: Seq<char>, i: int, k: int)
    requires
        first_delimiter(s, i),
        first_delimiter(s, k),
    ensures
        i == k,
{
}

/// The view of a split: both halves as characters.
pub open spec fn split_view(r: Option<(&str, &str)>) -> Option<(Seq<char>, Seq<char>)> {
    match r {
        None => None,
        Some((a, b)) => Some((a@, b@)),
    }
}

/// Parses substitution commands.
#[derive(Debug, Clone, Copy)]
pub struct RequestParser;

impl RequestParser {
    /// Splits `input` at its first `/` that no `\` escapes, in one pass.
    pub fn split_bar_escaping<'input>(&self, input: &'input str) -> (r: Option<
        (&'input str, &'input str),
    >)
        ensures
            split_view(r) == delimiter_split(input@),
    {
        let s = crate::text::chars_of(input);
        let mut escape = false;
        let mut i: usize = 0;
        while i < s.len()
            invariant
                s@ == input@,
                i <= s.len(),
                escape == escaped_before(s@, i as int),
                forall|j: int| 0 <= j < i ==> !is_delimiter(s@, j),
            decreases s.len() - i,
        {
            let c = s[i];
            if c == '/' && !escape {
                let head = input.substring_char(0, i);
                let tail = input.substring_char(i + 1, s.len());
                assert(first_delimiter(s@, i as int));
                proof {
                    let k = choose|k: int| first_delimiter(s@, k);
                    lemma_first_delimiter_unique(s@, i as int, k);
                }
                return Some((head, tail));
            }
            escape = c == '\\' && !escape;
            i = i + 1;
        }
        assert(!exists|k: int| first_delimiter(s@, k));
        None
    }
}

/// One piece of a replacement template.
#[derive(Debug, Clone, PartialEq, Eq)]
pub enum ReplacementNode {
    /// Text copied as it is.
    Text(String),
    /// The text of a capture group (empty where the group took no part).
    Index(usize),
}

/// A replacement template: its pieces in order.
#[derive(Debug, Clone, PartialEq, Eq)]
pub struct Replacement {
    pub nodes: Vec<ReplacementNode>,
}

/// A template piece as a value: literal characters, or a group number.
pub enum TemplatePart {
    Literal(Seq<char>),
    Group(nat),
}

impl View for ReplacementNode {
    type V = TemplatePart;

    open spec fn view(&self) -> TemplatePart {
        match self {
            ReplacementNode::Text(t) => TemplatePart::Literal(t@),
            ReplacementNode::Index(g) => TemplatePart::Group(*g as nat),
        }
    }
}

impl View for Replacement {
    type V = Seq<TemplatePart>;

    open spec fn view(&self) -> Seq<TemplatePart> {
        self.nodes@.map_values(|n: ReplacementNode| n@)
    }
}

pub open spec fn is_digit(c: char) -> bool {
    '0' <= c <= '9'
}

pub open spec fn digit_value(c: char) -> nat {
    (c as nat - '0' as nat) as nat
}

/// Puts literal text in front of template parts, joining it to a literal
/// that comes first.
pub open spec fn prepend_literal(text: Seq<char>, parts: Seq<TemplatePart>) -> Seq<TemplatePart> {
    if text.len() == 0 {
        parts
    } else if parts.len() > 0 && parts[0] is Literal {
        seq![TemplatePart::Literal(text + parts[0]->Literal_0)] + parts.skip(1)
    } else {
        seq![TemplatePart::Literal(text)] + parts
    }
}

/// The pieces of a template: `\N` and `$N` (one digit `N`) stand for group
/// `N`; `\` before any other character makes that character literal (so `\/`
/// is `/` and `\\` is `\`); every other character is literal, a `\` at the very
/// end too. Neighbouring literal characters form one piece.
pub open spec fn template_parts(s: Seq<char>) -> Seq<TemplatePart>
    decreases s.len(),
{
    if s.len() == 0 {
        seq![]
    } else if s.len() >= 2 && (s[0] == '\\' || s[0] == '$') && is_digit(s[1]) {
        seq![TemplatePart::Group(digit_value(s[1]))] + template_parts(s.skip(2))
    } else if s.len() >= 2 && s[0] == '\\' {
        prepend_literal(seq![s[1]], template_parts(s.skip(2)))
    } else {
        prepend_literal(seq![s[0]], template_parts(s.skip(1)))
    }
}

proof fn lemma_prepend_literal_join(a: Seq<char>, b: Seq<char>, parts: Seq<TemplatePart>)
    requires
        b.len() > 0,
    ensures
        prepend_literal(a, prepend_literal(b, parts)) == prepend_literal(a + b, parts),
{
    if a.len() == 0 {
        assert(a + b == b);
    } else if parts.len() > 0 && parts[0] is Literal {
        let l = parts[0]->Literal_0;
        assert(a + (b + l) == (a + b) + l);
        assert((seq![TemplatePart::Literal(b + l)] + parts.skip(1)).skip(1) == parts.skip(1));
    } else {
        assert((seq![TemplatePart::Literal(b)] + parts).skip(1) == parts);
    }
}

impl Default for Replacement {
    /// The empty template.
    fn default() -> (r: Replacement)
        ensures
            r@ == Seq::<TemplatePart>::empty(),
    {
        Replacement { nodes: Vec::new() }
    }
}

impl Replacement {
    /// Reads a replacement template.
    pub fn parse(replacement_str: &str) -> (r: Replacement)
        ensures
            r@ == template_parts(replacement_str@),
    {
        let s = crate::text::chars_of(replacement_str);
        let mut nodes: Vec<ReplacementNode> = Vec::new();
        let mut text: Vec<char> = Vec::new();
        let mut i: usize = 0;
        assert(s@.skip(0) == s@);
        assert(nodes@.map_values(|n: ReplacementNode| n@) + template_parts(s@) == template_parts(
            s@,
        ));
        while i < s.len()
            invariant
                s@ == replacement_str@,
                i <= s.len(),
                template_parts(s@) == nodes@.map_values(|n: ReplacementNode| n@) + prepend_literal(
                    text@,
                    template_parts(s@.skip(i as int)),
                ),
            decreases s.len() - i,
        {
            let ghost rest = s@.skip(i as int);
            let ghost t0 = text@;
            let c = s[i];
            if i + 1 < s.len() && (c == '\\' || c == '$') && '0' <= s[i + 1] && s[i + 1] <= '9' {
                let g = ((s[i + 1] as u32) - ('0' as u32)) as usize;
                assert(rest.skip(2) == s@.skip(i + 2));
                let ghost old_nodes = nodes@.map_values(|n: ReplacementNode| n@);
                if text.len() > 0 {
                    let t = crate::text::string_of(&text);
                    nodes.push(ReplacementNode::Text(t));
                }
                nodes.push(ReplacementNode::Index(g));
                text = Vec::new();
                proof {
                    let after = template_parts(s@.skip(i + 2));
                    assert(g as nat == digit_value(s@[i + 1]));
                    assert(prepend_literal(text@, after) == after);
                    assert(nodes@.map_values(|n: ReplacementNode| n@) =~= old_nodes + (if t0.len() > 0 {
                        seq![TemplatePart::Literal(t0)]
                    } else {
                        seq![]
                    }) + seq![TemplatePart::Group(g as nat)]);
                }
                i = i + 2;
            } else if i + 1 < s.len() && c == '\\' {
                let d = s[i + 1];
                assert(rest.skip(2) == s@.skip(i + 2));
                proof {
                    lemma_prepend_literal_join(text@, seq![d], template_parts(s@.skip(i + 2)));
                }
                text.push(d);
                assert(text@ == t0 + seq![d]);
                i = i + 2;
            } else {
                assert(rest.skip(1) == s@.skip(i + 1));
                proof {
                    lemma_prepend_literal_join(text@, seq![c], template_parts(s@.skip(i + 1)));
                }
                text.push(c);
                assert(text@ == t0 + seq![c]);
                i = i + 1;
            }
        }
        if text.len() > 0 {
            let t = crate::text::string_of(&text);
            nodes.push(ReplacementNode::Text(t));
        }
        Replacement { nodes }
    }
}

/// A substitution to carry out: the compiled search pattern, the template, the
/// scope, and the message that the command replies to.
#[derive(Debug)]
pub struct Request<M, C> {
    pub query: regex::Regex,
    pub replacement: Replacement,
    pub is_global: bool,
    pub target: ReplyTarget<M, C>,
}

/// `s/` starts at position `p`.
pub open spec fn command_start(s: Seq<char>, p: int) -> bool {
    0 <= p && p + 1 < s.len() && s[p] == 's' && s[p + 1] == '/'
}

pub open spec fn first_command_start(s: Seq<char>, p: int) -> bool {
    command_start(s, p) && forall|q: int| 0 <= q < p ==> !command_start(s, q)
}

/// What follows the first `s/` of a text, if it holds one.
pub open spec fn command_text(s: Seq<char>) -> Option<Seq<char>> {
    if exists|p: int| first_command_start(s, p) {
        let p = choose|p: int| first_command_start(s, p);
        Some(s.skip(p + 2))
    } else {
        None
    }
}

/// The search pattern, the template and the flag letters of a rule (what
/// follows `s/`): the flags are optional, the search pattern is not.
pub open spec fn rule_parts(t: Seq<char>) -> Option<(Seq<char>, Seq<char>, Seq<char>)> {
    match delimiter_split(t) {
        None => None,
        Some((query, rest)) => match delimiter_split(rest) {
            Some((replacement, flags)) => Some((query, replacement, flags)),
            None => Some((query, rest, Seq::empty())),
        },
    }
}

/// `r` is what reading `message` as a substitution command gives. A text
/// without `s/` names none; a rule without a second `/` lacks its search
/// pattern; bad flags give their error; otherwise a search pattern that the
/// engine accepts under the flags becomes a request, and one that it refuses
/// gives the engine's error.
pub open spec fn substitution_parse<M, C>(
    message: Message<M, C>,
    r: Result<Option<Request<M, C>>, ParseError>,
) -> bool {
    match command_text(message.data.content@) {
        None => r == Ok::<Option<Request<M, C>>, ParseError>(None),
        Some(t) => match rule_parts(t) {
            None => r == Err::<Option<Request<M, C>>, ParseError>(ParseError::MissingQuery),
            Some((query, replacement, flags)) => match flags_outcome(flags) {
                Err(e) => r == Err::<Option<Request<M, C>>, ParseError>(e),
                Ok(f) => if compiles(query, f) {
                    r matches Ok(Some(request)) && {
                        &&& regex_source(request.query) == (query, f)
                        &&& request.replacement@ == template_parts(replacement)
                        &&& request.is_global == f.global
                        &&& request.target == message.data.reply_target
                    }
                } else {
                    r matches Err(ParseError::InvalidRegex(_))
                },
            },
        },
    }
}

/// The position of the first `s/` in `s`, if any.
fn find_command_start(s: &Vec<char>) -> (r: Option<usize>)
    ensures
        match r {
            Some(p) => first_command_start(s@, p as int),
            None => forall|p: int| !command_start(s@, p),
        },
{
    let mut p: usize = 0;
    while p < s.len() && p + 1 < s.len()
        invariant
            p <= s.len(),
            forall|q: int| 0 <= q < p ==> !command_start(s@, q),
        decreases s.len() - p,
    {
        if s[p] == 's' && s[p + 1] == '/' {
            return Some(p);
        }
        p = p + 1;
    }
    None
}

proof fn lemma_first_command_start_unique(s: Seq<char>, p: int, q: int)
    requires
        first_command_start(s, p),
        first_command_start(s, q),
    ensures
        p == q,
{
}

impl<M: Id, C: Id> Parser<M, C> for RequestParser {
    type Error = ParseError;

    type Request = Request<M, C>;

    open spec fn parses_to(
        &self,
        bot: Bot,
        message: Message<M, C>,
        r: Result<Option<Request<M, C>>, ParseError>,
    ) -> bool {
        substitution_parse(message, r)
    }

    fn parse(&self, bot: &Bot, message: &Message<M, C>) -> (r: Result<
        Option<Request<M, C>>,
        ParseError,
    >) {
        let content = message.data.content.as_str();
        let cs = chars_of(content);
        let start = match find_command_start(&cs) {
            Some(p) => p,
            None => {
                assert(!exists|p: int| first_command_start(cs@, p));
                return Ok(None);
            },
        };
        proof {
            let q = choose|q: int| first_command_start(cs@, q);
            lemma_first_command_start_unique(cs@, start as int, q);
        }
        let n = cs.len();
        assert(command_start(cs@, start as int));
        assert(start + 1 < n);
        let tail = content.substring_char(start + 2, n);
        assert(tail@ == cs@.skip(start + 2));
        let (query_str, rest) = match self.split_bar_escaping(tail) {
            Some(split) => split,
            None => return Err(ParseError::MissingQuery),
        };
        let (replacement_str, flags_str) = match self.split_bar_escaping(rest) {
            Some(split) => split,
            None => (rest, ""),
        };
        proof {
            reveal_strlit("");
        }
        let flags = match Flags::parse(flags_str) {
            Ok(flags) => flags,
            Err(error) => return Err(error),
        };
        let query = match compile(query_str, &flags) {
            Ok(regex) => regex,
            Err(error) => return Err(ParseError::InvalidRegex(error)),
        };
        let replacement = Replacement::parse(replacement_str);
        Ok(
            Some(
                Request {
                    query,
                    replacement,
                    is_global: flags.global,
                    target: message.data.reply_target.duplicate(),
                },
            ),
        )
    }
}

/// A text without `s/` names no substitution: reading it gives `Ok(None)`,
/// never an error.
pub proof fn lemma_no_command_not_recognized<M, C>(
    message: Message<M, C>,
    r: Result<Option<Request<M, C>>, ParseError>,
)
    requires
        forall|p: int| !command_start(message.data.content@, p),
        substitution_parse(message, r),
    ensures
        r matches Ok(None),
{
}

/// Carries out substitutions on the message replied to.
#[derive(Debug, Clone, Copy)]
pub struct ReplaceCommand;

/// `out` is `original` rewritten: its text with the template applied at the
/// matches `ms`, as many as the request's scope allows, sent to its chat as a
/// reply to it.
pub open spec fn is_rewrite_of<M, C>(
    request: Request<M, C>,
    original: Message<M, C>,
    ms: Seq<Seq<Option<(usize, usize)>>>,
    out: NewMessage<M, C>,
) -> bool {
    let text = original.data.content@;
    &&& matches_fit(encode_utf8(text), ms)
    &&& encode_utf8(out.data.content@) == substituted(
        encode_utf8(text),
        ms,
        request.replacement@,
        replaced_count(ms.len() as int, request.is_global),
    )
    &&& out.data.chat_id == original.data.chat_id
    &&& out.data.reply_target == ReplyTarget::<M, C>::MessageId(original.id)
}

impl<M: Id, C: Id> Command<Request<M, C>, M, C> for ReplaceCommand {
    type Error = CommandError;

    /// Only a reply to a text message can be rewritten; the matches are those
    /// that the engine finds in its text for the request's pattern and flags.
    open spec fn executes_to(
        &self,
        request: Request<M, C>,
        r: Result<NewMessage<M, C>, CommandError>,
    ) -> bool {
        match request.target {
            ReplyTarget::Message(original) => r matches Ok(out) && is_rewrite_of(
                request,
                *original,
                captures_of(
                    regex_source(request.query).0,
                    regex_source(request.query).1,
                    original.data.content@,
                ),
                out,
            ),
            _ => r == Err::<NewMessage<M, C>, CommandError>(CommandError::MissingMessage),
        }
    }

    fn execute(&self, request: Request<M, C>) -> (r: Result<NewMessage<M, C>, CommandError>) {
        match &request.target {
            ReplyTarget::Message(original) => {
                let text = original.data.content.as_str();
                let matches = find_captures(&request.query, text);
                let content = substitute(text, &matches, &request.replacement, request.is_global);
                let out = NewMessage {
                    data: MessageData {
                        chat_id: original.data.chat_id,
                        content,
                        reply_target: ReplyTarget::MessageId(original.id),
                    },
                };
                assert(is_rewrite_of(
                    request,
                    **original,
                    crate::substitute::captures_view(matches@),
                    out,
                ));
                Ok(out)
            },
            _ => Err(CommandError::MissingMessage),
        }
    }
}

} // verus!
