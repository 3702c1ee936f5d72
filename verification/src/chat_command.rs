//! Discord messages relayed into Minecraft chat.

use crate::chat::{prefix_of, Chat};
use crate::commands::{command_text, Context, MinecraftCommand, RunCommand};
use crate::events::{ChatEvent, RawChatEvent, Response};
use crate::reactions::Reaction;
use crate::sanitizer::{clean, clean_string};
use crate::text::{chars_of, eq_ignore_case, eq_str, str_eq_ignore_ascii_case, string_of};
use vstd::prelude::*;

verus! {

/// The longest command Minecraft accepts from a client, in characters.
pub const MAX_COMMAND_LEN: usize = 256;

/// A Discord message to be written into a Minecraft chat.
#[derive(Debug)]
pub struct ChatCommand {
    pub author: String,
    pub message: String,
    pub chat: Chat,
}

/// How many characters of the message fit beside `author` in
/// `/PREFIX AUTHOR: MESSAGE`.
pub open spec fn room_for(author: Seq<char>) -> int {
    256 - 1 - 2 - 1 - author.len() - 2
}

/// The cleaned message cut to the room left beside the cleaned author.
pub open spec fn relayed_message(author: Seq<char>, message: Seq<char>) -> Seq<char> {
    let m = clean(message);
    let room = room_for(clean(author));
    if m.len() <= room {
        m
    } else {
        m.take(room)
    }
}

/// The reactions that tell the sender their message was changed on the way.
pub open spec fn issues_of(author: Seq<char>, message: Seq<char>) -> Seq<Reaction> {
    let first = if author != clean(author) || message != clean(message) {
        seq![Reaction::IllegalCharacters]
    } else {
        Seq::empty()
    };
    if clean(message).len() > room_for(clean(author)) {
        first.push(Reaction::TooLong)
    } else {
        first
    }
}

/// The answer to a relayed message that an event is, if any.
#[derive(Debug, Clone, Copy, PartialEq, Eq, Structural)]
pub enum ChatCommandResponse {
    Success,
    Failure(Reaction),
}

impl ChatCommandResponse {
    pub fn is_success(&self) -> (b: bool)
        ensures
            b == (self is Success),
    {
        match self {
            ChatCommandResponse::Success => true,
            _ => false,
        }
    }

    pub fn is_failure(&self) -> (b: bool)
        ensures
            b == (self is Failure),
    {
        match self {
            ChatCommandResponse::Failure(_) => true,
            _ => false,
        }
    }
}

/// The reaction Minecraft's answer to a relayed message calls for: the
/// failure's own reaction, the timed-out reaction when no answer came, and
/// none on success.
pub open spec fn answer_reaction_of(answer: Option<ChatCommandResponse>) -> Option<Reaction> {
    match answer {
        Some(ChatCommandResponse::Success) => None,
        Some(ChatCommandResponse::Failure(r)) => Some(r),
        None => Some(Reaction::TimedOut),
    }
}

/// Computes [`answer_reaction_of`].
pub fn answer_reaction(answer: &Option<ChatCommandResponse>) -> (r: Option<Reaction>)
    ensures
        r == answer_reaction_of(*answer),
{
    match answer {
        Some(ChatCommandResponse::Success) => None,
        Some(ChatCommandResponse::Failure(r)) => Some(*r),
        None => Some(Reaction::TimedOut),
    }
}

/// `p` is a prefix of `s`.
pub open spec fn starts_with(s: Seq<char>, p: Seq<char>) -> bool {
    p.len() <= s.len() && s.subrange(0, p.len() as int) == p
}

/// `p` is a suffix of `s`.
pub open spec fn ends_with(s: Seq<char>, p: Seq<char>) -> bool {
    p.len() <= s.len() && s.subrange(s.len() - p.len(), s.len() as int) == p
}

/// How an event answers the message `author: message` sent to `chat` by the
/// bot `bot`.
pub open spec fn chat_outcome(
    author: Seq<char>,
    message: Seq<char>,
    chat: Chat,
    bot: Seq<char>,
    e: ChatEvent,
) -> Option<ChatCommandResponse> {
    match e {
        ChatEvent::Message { author: a, content: c, chat: ch } => if ch == chat && eq_ignore_case(
            bot,
            a@,
        ) && starts_with(c@, author) && ends_with(c@, message) {
            Some(ChatCommandResponse::Success)
        } else {
            None
        },
        ChatEvent::CommandResponse(Response::BotNotInGuild) => Some(
            ChatCommandResponse::Failure(Reaction::NotInGuild),
        ),
        ChatEvent::CommandResponse(Response::CommandDisabled) => Some(
            ChatCommandResponse::Failure(Reaction::Warning),
        ),
        ChatEvent::Unknown(m) => if starts_with(m@, "You're currently guild muted for"@)
            && ends_with(m@, "!"@) {
            Some(ChatCommandResponse::Failure(Reaction::Muted))
        } else if m@ == "You don't have access to the officer chat!"@ && chat == Chat::Officer {
            Some(ChatCommandResponse::Failure(Reaction::NoPermission))
        } else if m@ == "You must be in a guild to use this command!"@ {
            Some(ChatCommandResponse::Failure(Reaction::NotInGuild))
        } else {
            None
        },
        _ => None,
    }
}

/// Whether `p` is a prefix of `s`.
pub fn has_prefix(s: &Vec<char>, p: &str) -> (b: bool)
    ensures
        b == starts_with(s@, p@),
{
    let n = p.unicode_len();
    if n > s.len() {
        return false;
    }
    eq_str(s, 0, n, p)
}

/// Whether `p` is a suffix of `s`.
pub fn has_suffix(s: &Vec<char>, p: &str) -> (b: bool)
    ensures
        b == ends_with(s@, p@),
{
    let n = p.unicode_len();
    if n > s.len() {
        return false;
    }
    eq_str(s, s.len() - n, s.len(), p)
}

impl ChatCommand {
    /// Cleans the author and the message, and cuts the message so that the
    /// whole command fits in Minecraft's limit.  An author or message with
    /// nothing left after cleaning is refused; the reactions returned say what
    /// was changed.
    pub fn new(author: String, message: String, chat: Chat) -> (r: Result<
        (ChatCommand, Vec<Reaction>),
        Reaction,
    >)
        requires
            clean(author@).len() == 0 || clean(message@).len() == 0 || clean(author@).len() <= 250,
        ensures
            match r {
                Err(x) => (clean(author@).len() == 0 || clean(message@).len() == 0) && x
                    == Reaction::EmptyField,
                Ok((c, issues)) => {
                    &&& clean(author@).len() > 0
                    &&& clean(message@).len() > 0
                    &&& c.author@ == clean(author@)
                    &&& c.message@ == relayed_message(author@, message@)
                    &&& c.chat == chat
                    &&& issues@ == issues_of(author@, message@)
                },
            },
    {
        let clean_author = clean_string(author.as_str());
        let clean_message = clean_string(message.as_str());
        let a = clean_author.as_str().unicode_len();
        let m = clean_message.as_str().unicode_len();
        if a == 0 || m == 0 {
            return Err(Reaction::EmptyField);
        }
        proof {
            reveal_strlit("gc");
            reveal_strlit("oc");
        }
        let room: usize = 256 - 1 - chat.prefix().unicode_len() - 1 - a - 2;
        let mv = chars_of(clean_message.as_str());
        let trimmed = if m <= room {
            string_of(&mv, 0, m)
        } else {
            string_of(&mv, 0, room)
        };
        proof {
            assert(mv@.subrange(0, m as int) =~= mv@);
        }
        let mut issues: Vec<Reaction> = Vec::new();
        if !(author == clean_author) || !(message == clean_message) {
            issues.push(Reaction::IllegalCharacters);
        }
        if m > room {
            issues.push(Reaction::TooLong);
        }
        proof {
            assert(issues@ =~= issues_of(author@, message@));
        }
        Ok((ChatCommand { author: clean_author, message: trimmed, chat }, issues))
    }
}

impl RunCommand for ChatCommand {
    type Response = ChatCommandResponse;

    fn get_command(&self, ctx: &Context) -> (r: Result<MinecraftCommand, ChatCommandResponse>)
        ensures
            r matches Ok(MinecraftCommand::ChatMessage(a, m, c)) && a@ == self.author@ && m@
                == self.message@ && c == self.chat,
    {
        Ok(MinecraftCommand::ChatMessage(self.author.clone(), self.message.clone(), self.chat))
    }

    fn check_event(&self, ctx: &Context, event: &RawChatEvent) -> (r: Option<ChatCommandResponse>)
        ensures
            r == chat_outcome(self.author@, self.message@, self.chat, ctx.bot@, event.parsed()),
    {
        let event = event.as_chat_event();
        match event {
            ChatEvent::Message { author, content, chat } => {
                let c = chars_of(content.as_str());
                if *chat == self.chat && str_eq_ignore_ascii_case(ctx.bot.as_str(), author.as_str())
                    && has_prefix(&c, self.author.as_str()) && has_suffix(
                    &c,
                    self.message.as_str(),
                ) {
                    Some(ChatCommandResponse::Success)
                } else {
                    None
                }
            },
            ChatEvent::CommandResponse(Response::BotNotInGuild) => Some(
                ChatCommandResponse::Failure(Reaction::NotInGuild),
            ),
            ChatEvent::CommandResponse(Response::CommandDisabled) => Some(
                ChatCommandResponse::Failure(Reaction::Warning),
            ),
            ChatEvent::Unknown(m) => {
                let v = chars_of(m.as_str());
                let n = v.len();
                proof {
                    assert(v@.subrange(0, n as int) =~= v@);
                }
                if has_prefix(&v, "You're currently guild muted for") && has_suffix(&v, "!") {
                    Some(ChatCommandResponse::Failure(Reaction::Muted))
                } else if eq_str(&v, 0, n, "You don't have access to the officer chat!")
                    && self.chat.is_officer() {
                    Some(ChatCommandResponse::Failure(Reaction::NoPermission))
                } else if eq_str(&v, 0, n, "You must be in a guild to use this command!") {
                    Some(ChatCommandResponse::Failure(Reaction::NotInGuild))
                } else {
                    None
                }
            },
            _ => None,
        }
    }
}

/// A relayed message is answered with success by the bot's own echo of it in
/// the same chat: a message from the bot (ignoring ASCII case) whose content
/// starts with the author and ends with the message.  Any other chat message
/// is no answer.
pub proof fn lemma_echo_answers(
    author: Seq<char>,
    message: Seq<char>,
    chat: Chat,
    bot: Seq<char>,
    a: String,
    c: String,
    ch: Chat,
)
    ensures
        chat_outcome(author, message, chat, bot, ChatEvent::Message { author: a, content: c, chat: ch })
            == (if ch == chat && eq_ignore_case(bot, a@) && author.len() <= c@.len()
            && c@.subrange(0, author.len() as int) == author && message.len() <= c@.len()
            && c@.subrange(c@.len() - message.len(), c@.len() as int) == message {
            Some(ChatCommandResponse::Success)
        } else {
            None
        }),
{
}

/// The server's refusals of a relayed message are answered with their
/// reactions: a guild mute (any remaining time) with the muted reaction,
/// officer chat without access with the permission reaction (in the officer
/// chat only), and the bot being in no guild with the not-in-guild reaction.
pub proof fn lemma_refusal_reactions(
    author: Seq<char>,
    message: Seq<char>,
    chat: Chat,
    bot: Seq<char>,
    time: String,
)
    ensures
        forall|t: String|
            t@ == "You're currently guild muted for"@ + time@ + "!"@ ==> chat_outcome(
                author,
                message,
                chat,
                bot,
                ChatEvent::Unknown(t),
            ) == Some(ChatCommandResponse::Failure(Reaction::Muted)),
        forall|t: String|
            t@ == "You don't have access to the officer chat!"@ ==> chat_outcome(
                author,
                message,
                chat,
                bot,
                ChatEvent::Unknown(t),
            ) == (if chat == Chat::Officer {
                Some(ChatCommandResponse::Failure(Reaction::NoPermission))
            } else {
                None
            }),
        chat_outcome(
            author,
            message,
            chat,
            bot,
            ChatEvent::CommandResponse(Response::BotNotInGuild),
        ) == Some(ChatCommandResponse::Failure(Reaction::NotInGuild)),
        chat_outcome(
            author,
            message,
            chat,
            bot,
            ChatEvent::CommandResponse(Response::CommandDisabled),
        ) == Some(ChatCommandResponse::Failure(Reaction::Warning)),
{
    reveal_strlit("You're currently guild muted for");
    reveal_strlit("!");
    reveal_strlit("You don't have access to the officer chat!");
    reveal_strlit("You must be in a guild to use this command!");
    assert forall|t: String|
        t@ == "You're currently guild muted for"@ + time@ + "!"@ implies chat_outcome(
            author,
            message,
            chat,
            bot,
            ChatEvent::Unknown(t),
        ) == Some(ChatCommandResponse::Failure(Reaction::Muted)) by {
        let p = "You're currently guild muted for"@;
        assert(t@.subrange(0, p.len() as int) =~= p);
        assert(t@.subrange(t@.len() - 1, t@.len() as int) =~= "!"@);
    }
    assert forall|t: String| t@ == "You don't have access to the officer chat!"@ implies chat_outcome(
        author,
        message,
        chat,
        bot,
        ChatEvent::Unknown(t),
    ) == (if chat == Chat::Officer {
        Some(ChatCommandResponse::Failure(Reaction::NoPermission))
    } else {
        None
    }) by {
        let p = "You're currently guild muted for"@;
        if t@.len() >= p.len() && t@.subrange(0, p.len() as int) == p {
            assert(t@[3] == t@.subrange(0, p.len() as int)[3]);
        }
    }
}

/// A relayed message always fits in one Minecraft command: the command text
/// of a [`ChatCommand`] made by [`ChatCommand::new`] is at most 256
/// characters long.
pub proof fn lemma_relayed_command_fits(author: Seq<char>, message: Seq<char>, chat: Chat)
    requires
        clean(author).len() <= 250,
    ensures
        ("/"@ + prefix_of(chat) + " "@ + clean(author) + ": "@ + relayed_message(author, message)).len()
            <= 256,
{
    reveal_strlit("/");
    reveal_strlit(" ");
    reveal_strlit(": ");
    reveal_strlit("gc");
    reveal_strlit("oc");
}

} // verus!
