//! Discord messages on their way into Minecraft chat.

use crate::chat::{prefix_of, Chat};
use crate::chat_command::{
    ends_with, has_prefix, has_suffix, issues_of, relayed_message, starts_with, ChatCommand,
};
use crate::config::Channels;
use crate::events::ChatEvent;
use crate::reactions::Reaction;
use crate::sanitizer::{clean, clean_string};
use crate::text::{chars_of, concat, eq_ignore_case, str_eq_ignore_ascii_case, str_to_string, string_of};
use vstd::prelude::*;

verus! {

/// The name shown for a Discord user: their nickname in the server if they
/// have one, else their account name.
pub open spec fn display_name_of(nick: Option<String>, name: Seq<char>) -> Seq<char> {
    match nick {
        Some(n) => n@,
        None => name,
    }
}

/// The name shown for a Discord user.
pub fn display_name(nick: &Option<String>, name: &str) -> (r: String)
    ensures
        r@ == display_name_of(*nick, name@),
{
    match nick {
        Some(n) => n.clone(),
        None => str_to_string(name),
    }
}

/// The sender as shown in Minecraft: `author ≫ replied-to author` for a reply.
pub open spec fn author_line_of(author: Seq<char>, reply_to: Option<Seq<char>>) -> Seq<char> {
    match reply_to {
        Some(r) => author + " ≫ "@ + r,
        None => author,
    }
}

/// The sender as shown in Minecraft.
pub fn author_line(author: &str, reply_to: Option<&str>) -> (r: String)
    ensures
        r@ == author_line_of(
            author@,
            match reply_to {
                Some(x) => Some(x@),
                None => None,
            },
        ),
{
    match reply_to {
        Some(x) => concat(concat(str_to_string(author), " ≫ "), x),
        None => str_to_string(author),
    }
}

/// The chat a Discord channel is bridged to, if any.
pub open spec fn chat_of(channel: u64, channels: Channels) -> Option<Chat> {
    if channel == channels.guild {
        Some(Chat::Guild)
    } else if channel == channels.officer {
        Some(Chat::Officer)
    } else {
        None
    }
}

/// The chat a Discord channel is bridged to, if any.
pub fn chat_for(channel: u64, channels: &Channels) -> (r: Option<Chat>)
    ensures
        r == chat_of(channel, *channels),
{
    if channel == channels.guild {
        Some(Chat::Guild)
    } else if channel == channels.officer {
        Some(Chat::Officer)
    } else {
        None
    }
}

/// The chat a Discord message is relayed to: none for a bot's message or a
/// message outside the bridged channels.
pub open spec fn relayed_chat_of(from_bot: bool, channel: u64, channels: Channels) -> Option<Chat> {
    if from_bot {
        None
    } else {
        chat_of(channel, channels)
    }
}

/// The chat a Discord message is relayed to, if any.
pub fn relayed_chat(from_bot: bool, channel: u64, channels: &Channels) -> (r: Option<Chat>)
    ensures
        r == relayed_chat_of(from_bot, channel, *channels),
{
    if from_bot {
        None
    } else {
        chat_for(channel, channels)
    }
}

/// What becomes of a Discord message, before Minecraft answers it.
#[derive(Debug)]
pub enum MessageStep {
    /// Nothing: a bot wrote it, or it is outside the bridged channels.
    Ignore,
    /// Only this reaction; nothing is sent.
    Refuse(Reaction),
    /// These reactions, in order, then the command is sent.
    Run { command: ChatCommand, reactions: Vec<Reaction> },
}

/// What to do with a Discord message from `author` holding `content`: a bot's
/// message or one outside the bridged channels is ignored; a sender or
/// content with nothing left after cleaning gets the empty-field reaction
/// only; any other message gets its issues as reactions and its command is
/// sent.  (The command's answer is then turned into a reaction by
/// [`crate::chat_command::answer_reaction`].)
pub fn message_step(
    from_bot: bool,
    channel: u64,
    channels: &Channels,
    author: String,
    content: String,
) -> (r: MessageStep)
    requires
        relayed_chat_of(from_bot, channel, *channels) is Some ==> (clean(author@).len() == 0
            || clean(content@).len() == 0 || clean(author@).len() <= 250),
    ensures
        match relayed_chat_of(from_bot, channel, *channels) {
            None => r is Ignore,
            Some(chat) => if clean(author@).len() == 0 || clean(content@).len() == 0 {
                r == MessageStep::Refuse(Reaction::EmptyField)
            } else {
                r matches MessageStep::Run { command, reactions } && command.author@ == clean(
                    author@,
                ) && command.message@ == relayed_message(author@, content@) && command.chat
                    == chat && reactions@ == issues_of(author@, content@)
            },
        },
{
    let chat = match relayed_chat(from_bot, channel, channels) {
        Some(c) => c,
        None => {
            return MessageStep::Ignore;
        },
    };
    match ChatCommand::new(author, content, chat) {
        Ok((command, reactions)) => MessageStep::Run { command, reactions },
        Err(r) => MessageStep::Refuse(r),
    }
}

/// The Discord channel a chat is bridged to.
pub fn channel_id_of(chat: Chat, channels: &Channels) -> (id: u64)
    ensures
        id == match chat {
            Chat::Guild => channels.guild,
            Chat::Officer => channels.officer,
        },
        channels.guild != channels.officer ==> chat_of(id, *channels) == Some(chat),
{
    match chat {
        Chat::Guild => channels.guild,
        Chat::Officer => channels.officer,
    }
}

/// A message ready to be sent into Minecraft chat.
#[derive(Debug)]
pub struct Outbound {
    /// The command typed into Minecraft.
    pub command: String,
    pub chat: Chat,
    /// The cleaned sender, as it will show in chat.
    pub author: String,
    /// The cleaned content, as it will show in chat.
    pub content: String,
}

/// What to do with a Discord message: the reactions to put on it, and what to
/// send into Minecraft, if anything.
#[derive(Debug)]
pub struct Plan {
    pub reactions: Vec<Reaction>,
    pub send: Option<Outbound>,
}

/// The full command for a cleaned message.
pub open spec fn full_command(chat: Chat, author: Seq<char>, content: Seq<char>) -> Seq<char> {
    "/"@ + prefix_of(chat) + " "@ + author + ": "@ + content
}

/// The command as sent: cut to Minecraft's 256 characters.
pub open spec fn sent_command(chat: Chat, author: Seq<char>, content: Seq<char>) -> Seq<char> {
    let c = full_command(chat, author, content);
    if c.len() > 256 {
        c.take(256)
    } else {
        c
    }
}

/// The reactions for a message: an empty message or sender after cleaning
/// stops it; otherwise illegal characters and a command over 256 characters
/// are flagged, in that order.
pub open spec fn plan_reactions(
    author: Seq<char>,
    content: Seq<char>,
    chat: Option<Chat>,
) -> Seq<Reaction> {
    if clean(author).len() == 0 || clean(content).len() == 0 {
        seq![Reaction::EmptyField]
    } else {
        match chat {
            None => Seq::empty(),
            Some(c) => {
                let first = if clean(content) != content || clean(author) != author {
                    seq![Reaction::IllegalCharacters]
                } else {
                    Seq::empty()
                };
                if full_command(c, clean(author), clean(content)).len() > 256 {
                    first.push(Reaction::TooLong)
                } else {
                    first
                }
            },
        }
    }
}

/// Decides what to do with a Discord message from `author` (with replies
/// already folded in) holding `content` (with mentions already written
/// out), posted in `channel`.
pub fn plan_message(author: &str, content: &str, channel: u64, channels: &Channels) -> (p: Plan)
    ensures
        p.reactions@ == plan_reactions(author@, content@, chat_of(channel, *channels)),
        match p.send {
            None => clean(author@).len() == 0 || clean(content@).len() == 0 || chat_of(
                channel,
                *channels,
            ) is None,
            Some(o) => {
                &&& clean(author@).len() > 0
                &&& clean(content@).len() > 0
                &&& chat_of(channel, *channels) == Some(o.chat)
                &&& o.author@ == clean(author@)
                &&& o.content@ == clean(content@)
                &&& o.command@ == sent_command(o.chat, clean(author@), clean(content@))
            },
        },
{
    let clean_author = clean_string(author);
    let clean_content = clean_string(content);
    if clean_author.as_str().is_empty() || clean_content.as_str().is_empty() {
        let reactions = vec![Reaction::EmptyField];
        assert(reactions@ =~= seq![Reaction::EmptyField]);
        return Plan { reactions, send: None };
    }
    let chat = match chat_for(channel, channels) {
        Some(c) => c,
        None => {
            return Plan { reactions: Vec::new(), send: None };
        },
    };
    proof {
        reveal_strlit("gc");
        reveal_strlit("oc");
        reveal_strlit("/");
        reveal_strlit(" ");
        reveal_strlit(": ");
    }
    let command = concat(str_to_string("/"), chat.prefix());
    let command = concat(command, " ");
    let command = concat(command, clean_author.as_str());
    let command = concat(command, ": ");
    let command = concat(command, clean_content.as_str());
    let mut reactions: Vec<Reaction> = Vec::new();
    if !crate::text::str_equal(clean_content.as_str(), content) || !crate::text::str_equal(
        clean_author.as_str(),
        author,
    ) {
        reactions.push(Reaction::IllegalCharacters);
    }
    let cv = chars_of(command.as_str());
    let n = cv.len();
    let command = if n > 256 {
        reactions.push(Reaction::TooLong);
        string_of(&cv, 0, 256)
    } else {
        proof {
            assert(cv@.subrange(0, n as int) =~= cv@);
        }
        string_of(&cv, 0, n)
    };
    proof {
        assert(reactions@ =~= plan_reactions(author@, content@, chat_of(channel, *channels)));
    }
    Plan {
        reactions,
        send: Some(Outbound { command, chat, author: clean_author, content: clean_content }),
    }
}

/// The event is the bot's own message in `chat`, carrying `author` and
/// `content`: the message sent from Discord arrived.
pub open spec fn echoes(
    bot: Seq<char>,
    chat: Chat,
    author: Seq<char>,
    content: Seq<char>,
    e: ChatEvent,
) -> bool {
    e matches ChatEvent::Message { author: a, content: c, chat: ch } && ch == chat && eq_ignore_case(
        bot,
        a@,
    ) && starts_with(c@, author) && ends_with(c@, content)
}

/// Whether the event is the bot's echo of a message sent from Discord.
pub fn is_echo(bot: &str, o: &Outbound, event: &ChatEvent) -> (b: bool)
    ensures
        b == echoes(bot@, o.chat, o.author@, o.content@, *event),
{
    match event {
        ChatEvent::Message { author, content, chat } => {
            let c = chars_of(content.as_str());
            *chat == o.chat && str_eq_ignore_ascii_case(bot, author.as_str()) && has_prefix(
                &c,
                o.author.as_str(),
            ) && has_suffix(&c, o.content.as_str())
        },
        _ => false,
    }
}

/// Whatever the message, the command sent into Minecraft is at most 256
/// characters long, and it is the whole command whenever that fits.
pub proof fn lemma_sent_command_fits(chat: Chat, author: Seq<char>, content: Seq<char>)
    ensures
        sent_command(chat, author, content).len() <= 256,
        full_command(chat, author, content).len() <= 256 ==> sent_command(chat, author, content)
            == full_command(chat, author, content),
{
}


/// A Discord user is shown by their nickname when they have one, else by
/// their name; a reply shows its author, ` ≫ ` and the author replied to.
pub proof fn lemma_shown_names(nick: String, name: Seq<char>, author: Seq<char>, to: Seq<char>)
    ensures
        display_name_of(Some(nick), name) == nick@,
        display_name_of(None, name) == name,
        author_line_of(author, Some(to)) == author + " ≫ "@ + to,
        author_line_of(author, None) == author,
{
}

} // verus!
