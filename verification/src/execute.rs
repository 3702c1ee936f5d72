//! `/execute`: run a raw command as the Minecraft bot and show what came back.

use crate::chat::Chat;
use crate::commands::{
    response_text, Context, Embed, EmbedField, MinecraftCommand, RunCommand, SlashCommandResponse,
    GREEN,
};
use crate::events::{ChatEvent, GuildEvent, Moderation, RawChatEvent};
use crate::text::{chars_of, concat, str_to_string, string_of, trim, trim_bounds};
use vstd::prelude::*;

verus! {

/// Executes a command as the Minecraft bot.
#[derive(Debug, Clone)]
pub struct ExecuteCommand {
    /// The command to execute.
    pub command: String,
}

/// End of the run of slashes that starts at `i`.
pub open spec fn slash_end(s: Seq<char>, i: int) -> int
    decreases s.len() - i,
{
    if 0 <= i < s.len() && s[i] == '/' {
        slash_end(s, i + 1)
    } else {
        i
    }
}

/// The command as it is run: leading slashes dropped, then trimmed.
pub open spec fn command_of(s: Seq<char>) -> Seq<char> {
    trim(s.subrange(slash_end(s, 0), s.len() as int))
}


/// The name of the kind of an event.
pub open spec fn kind_text(e: ChatEvent) -> Seq<char> {
    match e {
        ChatEvent::Message { chat, .. } => match chat {
            Chat::Guild => "Guild Message"@,
            Chat::Officer => "Officer Message"@,
        },
        ChatEvent::Toggle { .. } => "Member Toggle"@,
        ChatEvent::GuildEvent(_) => "Guild Event"@,
        ChatEvent::Moderation(_) => "Moderation"@,
        ChatEvent::CommandResponse(_) => "Command Response"@,
        ChatEvent::Unknown(_) => "Unknown"@,
    }
}

/// A short text for an event.
pub open spec fn event_text(e: ChatEvent) -> Seq<char> {
    match e {
        ChatEvent::Message { author, content, .. } => author@ + ": "@ + content@,
        ChatEvent::Toggle { member, online } => if online {
            member@ + " joined."@
        } else {
            member@ + " left."@
        },
        ChatEvent::GuildEvent(g) => match g {
            GuildEvent::Join(m) => m@ + " joined the guild"@,
            GuildEvent::Leave(m) => m@ + " left the guild"@,
            GuildEvent::Kick { member, by } => member@ + " was kicked by "@ + by@,
            GuildEvent::Promotion { member, old_rank, new_rank } => member@
                + " was promoted from "@ + old_rank@ + " to "@ + new_rank@,
            GuildEvent::Demotion { member, old_rank, new_rank } => member@ + " was demoted from "@
                + old_rank@ + " to "@ + new_rank@,
        },
        ChatEvent::Moderation(m) => match m {
            Moderation::Mute { member, by, time } => match member {
                Some(x) => x@ + " was muted for "@ + time@ + " by "@ + by@,
                None => "The guild chat was muted for "@ + time@ + " by "@ + by@,
            },
            Moderation::Unmute { member, by } => match member {
                Some(x) => x@ + " was unmuted by "@ + by@,
                None => "The guild chat was unmuted by "@ + by@,
            },
        },
        ChatEvent::CommandResponse(r) => response_text(r),
        ChatEvent::Unknown(m) => m@,
    }
}

/// `x` in a code block.
pub open spec fn code_block(x: Seq<char>) -> Seq<char> {
    "```"@ + x + "```"@
}

/// The embed `/execute` answers with, for the command `cmd` and the line
/// `raw` classified as `e`.
pub open spec fn execute_embed(x: Embed, cmd: Seq<char>, raw: Seq<char>, e: ChatEvent) -> bool {
    &&& x.description matches Some(d) && d@ == "Executing `/"@ + cmd + "`"@
    &&& x.fields@.len() == 2
    &&& x.fields@[0].name@ == "Output"@
    &&& x.fields@[0].value@ == code_block(raw)
    &&& x.fields@[1].name@ == "Parsed as "@ + kind_text(e)
    &&& x.fields@[1].value@ == code_block(event_text(e))
    &&& x.colour == GREEN
    &&& x.title is None
    &&& x.author is None
    &&& x.author_icon is None
    &&& x.footer is None
    &&& x.footer_icon is None
    &&& x.timestamp is None
}

fn kind_name(e: &ChatEvent) -> (t: &'static str)
    ensures
        t@ == kind_text(*e),
{
    match e {
        ChatEvent::Message { chat, .. } => match chat {
            Chat::Guild => "Guild Message",
            Chat::Officer => "Officer Message",
        },
        ChatEvent::Toggle { .. } => "Member Toggle",
        ChatEvent::GuildEvent(_) => "Guild Event",
        ChatEvent::Moderation(_) => "Moderation",
        ChatEvent::CommandResponse(_) => "Command Response",
        ChatEvent::Unknown(_) => "Unknown",
    }
}

fn join3(a: &str, b: &str, c: &str) -> (r: String)
    ensures
        r@ == a@ + b@ + c@,
{
    concat(concat(str_to_string(a), b), c)
}

impl ChatEvent {
    /// A short text for the event.
    pub fn describe(&self) -> (t: String)
        ensures
            t@ == event_text(*self),
    {
        match self {
            ChatEvent::Message { author, content, .. } => join3(
                author.as_str(),
                ": ",
                content.as_str(),
            ),
            ChatEvent::Toggle { member, online } => if *online {
                concat(str_to_string(member.as_str()), " joined.")
            } else {
                concat(str_to_string(member.as_str()), " left.")
            },
            ChatEvent::GuildEvent(g) => match g {
                GuildEvent::Join(m) => concat(str_to_string(m.as_str()), " joined the guild"),
                GuildEvent::Leave(m) => concat(str_to_string(m.as_str()), " left the guild"),
                GuildEvent::Kick { member, by } => join3(
                    member.as_str(),
                    " was kicked by ",
                    by.as_str(),
                ),
                GuildEvent::Promotion { member, old_rank, new_rank } => {
                    let t = join3(member.as_str(), " was promoted from ", old_rank.as_str());
                    concat(concat(t, " to "), new_rank.as_str())
                },
                GuildEvent::Demotion { member, old_rank, new_rank } => {
                    let t = join3(member.as_str(), " was demoted from ", old_rank.as_str());
                    concat(concat(t, " to "), new_rank.as_str())
                },
            },
            ChatEvent::Moderation(m) => match m {
                Moderation::Mute { member, by, time } => {
                    let t = match member {
                        Some(x) => join3(x.as_str(), " was muted for ", time.as_str()),
                        None => concat(
                            str_to_string("The guild chat was muted for "),
                            time.as_str(),
                        ),
                    };
                    concat(concat(t, " by "), by.as_str())
                },
                Moderation::Unmute { member, by } => match member {
                    Some(x) => join3(x.as_str(), " was unmuted by ", by.as_str()),
                    None => concat(str_to_string("The guild chat was unmuted by "), by.as_str()),
                },
            },
            ChatEvent::CommandResponse(r) => r.description(),
            ChatEvent::Unknown(m) => str_to_string(m.as_str()),
        }
    }
}

impl ExecuteCommand {
    /// The command as it is run: leading slashes dropped, then trimmed.
    pub fn trimmed_command(&self) -> (c: String)
        ensures
            c@ == command_of(self.command@),
    {
        let v = chars_of(self.command.as_str());
        let n = v.len();
        let mut i: usize = 0;
        while i < n && v[i] == '/'
            invariant
                i <= n == v@.len(),
                slash_end(v@, i as int) == slash_end(v@, 0),
            decreases n - i,
        {
            i = i + 1;
        }
        let rest = chars_of(string_of(&v, i, n).as_str());
        let (a, b) = trim_bounds(&rest);
        string_of(&rest, a, b)
    }
}

impl RunCommand for ExecuteCommand {
    type Response = SlashCommandResponse;

    /// Always runs the command, as given without its leading slashes.
    fn get_command(&self, ctx: &Context) -> (r: Result<MinecraftCommand, SlashCommandResponse>)
        ensures
            r matches Ok(MinecraftCommand::Execute(c)) && c@ == command_of(self.command@),
    {
        Ok(MinecraftCommand::Execute(self.trimmed_command()))
    }

    /// Every line answers `/execute`: it is shown raw and as it was parsed.
    fn check_event(&self, ctx: &Context, event: &RawChatEvent) -> (r: Option<SlashCommandResponse>)
        ensures
            r matches Some(SlashCommandResponse::Embed(x)) && execute_embed(
                x,
                command_of(self.command@),
                event@,
                event.parsed(),
            ),
    {
        let parsed = event.as_chat_event();
        let cmd = self.trimmed_command();
        let description = join3("Executing `/", cmd.as_str(), "`");
        let output = EmbedField {
            name: str_to_string("Output"),
            value: join3("```", event.raw(), "```"),
        };
        let described = parsed.describe();
        let kind = EmbedField {
            name: concat(str_to_string("Parsed as "), kind_name(parsed)),
            value: join3("```", described.as_str(), "```"),
        };
        let mut fields: Vec<EmbedField> = Vec::new();
        fields.push(output);
        fields.push(kind);
        Some(
            SlashCommandResponse::Embed(
                Embed {
                    title: None,
                    author: None,
                    author_icon: None,
                    description: Some(description),
                    fields,
                    footer: None,
                    footer_icon: None,
                    colour: GREEN,
                    timestamp: None,
                },
            ),
        )
    }
}


/// The command run is what follows the leading slashes, trimmed: any number
/// of slashes before a text that does not start with one are dropped.
pub proof fn lemma_execute_drops_slashes(k: nat, t: Seq<char>)
    requires
        t.len() == 0 || t[0] != '/',
    ensures
        command_of(Seq::new(k, |i: int| '/') + t) == trim(t),
{
    let s = Seq::new(k, |i: int| '/') + t;
    lemma_slash_end_at(s, 0, k as int);
    assert(s.subrange(k as int, s.len() as int) =~= t);
}

proof fn lemma_slash_end_at(s: Seq<char>, i: int, k: int)
    requires
        0 <= i <= k <= s.len(),
        forall|j: int| i <= j < k ==> #[trigger] s[j] == '/',
        k == s.len() || s[k] != '/',
    ensures
        slash_end(s, i) == k,
    decreases k - i,
{
    if i < k {
        lemma_slash_end_at(s, i + 1, k);
    }
}

} // verus!
