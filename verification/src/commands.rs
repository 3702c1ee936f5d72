//! Shared types of the Discord slash commands: the embeds they answer with,
//! the Minecraft commands they send and the trait every command implements.

use crate::chat::{cap, prefix_of, Chat};
use crate::events::{
    not_in_guild_line, player_not_found_line, unknown_command_message, ChatEvent, RawChatEvent,
    Response,
};
use crate::grammar::{lit_at_exec, Phrase, Simple, Tail};
use crate::text::{chars_of, concat, eq_ignore_case, eq_str, str_eq_ignore_ascii_case, str_to_string, trim, trim_bounds};
use vstd::prelude::*;

verus! {

/// Embed colour of a successful operation.
pub const GREEN: u32 = 0x47f04a;

/// Embed colour of a warning.
pub const YELLOW: u32 = 0xff8c00;

/// Embed colour of a failed operation.
pub const RED: u32 = 0xf04a47;

/// A named field of an embed.
#[derive(Debug, Clone, PartialEq, Eq)]
pub struct EmbedField {
    pub name: String,
    pub value: String,
}

/// The content of a Discord embed.
#[derive(Debug, Clone, PartialEq, Eq)]
pub struct Embed {
    pub title: Option<String>,
    /// The name shown in the author line.
    pub author: Option<String>,
    /// The icon shown in the author line.
    pub author_icon: Option<String>,
    pub description: Option<String>,
    pub fields: Vec<EmbedField>,
    pub footer: Option<String>,
    pub footer_icon: Option<String>,
    pub colour: u32,
    /// Seconds since the Unix epoch.
    pub timestamp: Option<u64>,
}

/// The value of an optional text.
pub open spec fn text_of(t: Option<String>) -> Option<Seq<char>> {
    match t {
        Some(x) => Some(x@),
        None => None,
    }
}

/// A copy of an optional text.
pub fn copy_text(t: &Option<String>) -> (r: Option<String>)
    ensures
        text_of(r) == text_of(*t),
{
    match t {
        Some(x) => Some(x.clone()),
        None => None,
    }
}

/// The mathematical value of an [`Embed`].
pub struct EmbedView {
    pub title: Option<Seq<char>>,
    pub author: Option<Seq<char>>,
    pub author_icon: Option<Seq<char>>,
    pub description: Option<Seq<char>>,
    pub fields: Seq<(Seq<char>, Seq<char>)>,
    pub footer: Option<Seq<char>>,
    pub footer_icon: Option<Seq<char>>,
    pub colour: u32,
    pub timestamp: Option<u64>,
}

impl View for Embed {
    type V = EmbedView;

    open spec fn view(&self) -> EmbedView {
        EmbedView {
            title: text_of(self.title),
            author: text_of(self.author),
            author_icon: text_of(self.author_icon),
            description: text_of(self.description),
            fields: self.fields@.map_values(|f: EmbedField| (f.name@, f.value@)),
            footer: text_of(self.footer),
            footer_icon: text_of(self.footer_icon),
            colour: self.colour,
            timestamp: self.timestamp,
        }
    }
}

/// An embed with nothing but a colour.
pub open spec fn blank(colour: u32) -> EmbedView {
    EmbedView {
        title: None,
        author: None,
        author_icon: None,
        description: None,
        fields: Seq::empty(),
        footer: None,
        footer_icon: None,
        colour,
        timestamp: None,
    }
}

/// An embed with only the description `d` and a colour.
pub open spec fn basic(d: Seq<char>, colour: u32) -> EmbedView {
    EmbedView { description: Some(d), ..blank(colour) }
}

impl Embed {
    /// An embed with nothing but a colour.
    pub fn blank(colour: u32) -> (e: Embed)
        ensures
            e@ == blank(colour),
    {
        let e = Embed {
            title: None,
            author: None,
            author_icon: None,
            description: None,
            fields: Vec::new(),
            footer: None,
            footer_icon: None,
            colour,
            timestamp: None,
        };
        assert(e@.fields =~= Seq::<(Seq<char>, Seq<char>)>::empty());
        e
    }

    /// A copy of the embed.
    pub fn duplicate(&self) -> (e: Embed)
        ensures
            e@ == self@,
    {
        let mut fields: Vec<EmbedField> = Vec::new();
        let mut i: usize = 0;
        while i < self.fields.len()
            invariant
                i <= self.fields@.len(),
                fields@.len() == i,
                forall|k: int|
                    0 <= k < i ==> (#[trigger] fields@[k]).name@ == self.fields@[k].name@
                        && fields@[k].value@ == self.fields@[k].value@,
            decreases self.fields@.len() - i,
        {
            let f = &self.fields[i];
            fields.push(EmbedField { name: f.name.clone(), value: f.value.clone() });
            i = i + 1;
        }
        assert(fields@.map_values(|f: EmbedField| (f.name@, f.value@)) =~= self.fields@.map_values(
            |f: EmbedField| (f.name@, f.value@),
        ));
        Embed {
            title: copy_text(&self.title),
            author: copy_text(&self.author),
            author_icon: copy_text(&self.author_icon),
            description: copy_text(&self.description),
            fields,
            footer: copy_text(&self.footer),
            footer_icon: copy_text(&self.footer_icon),
            colour: self.colour,
            timestamp: self.timestamp,
        }
    }

    /// An embed with only a description and a colour.
    pub fn described(description: String, colour: u32) -> (e: Embed)
        ensures
            e@ == basic(description@, colour),
    {
        let mut e = Embed::blank(colour);
        e.description = Some(description);
        e
    }
}

/// An embed with only the description `d` and the colour `colour`.
pub open spec fn plain_embed(e: Embed, d: Seq<char>, colour: u32) -> bool {
    e@ == basic(d, colour)
}

/// The answer to a slash command.
#[derive(Debug, Clone, PartialEq, Eq)]
pub enum SlashCommandResponse {
    Success(String),
    Failure(String),
    Embed(Embed),
    Timeout,
}

/// What a reply says, as text.
pub enum Outcome {
    Success(Seq<char>),
    Failure(Seq<char>),
    Other,
}

/// The outcome of a possible reply.
pub open spec fn outcome(r: Option<SlashCommandResponse>) -> Option<Outcome> {
    match r {
        None => None,
        Some(SlashCommandResponse::Success(t)) => Some(Outcome::Success(t@)),
        Some(SlashCommandResponse::Failure(t)) => Some(Outcome::Failure(t@)),
        Some(_) => Some(Outcome::Other),
    }
}

/// The description of the timeout reply.
pub open spec fn timeout_text() -> Seq<char> {
    "Couldn't find any command response after 10s"@
}

impl SlashCommandResponse {
    pub fn is_success(&self) -> (b: bool)
        ensures
            b == (self is Success),
    {
        match self {
            SlashCommandResponse::Success(_) => true,
            _ => false,
        }
    }

    pub fn is_failure(&self) -> (b: bool)
        ensures
            b == (self is Failure),
    {
        match self {
            SlashCommandResponse::Failure(_) => true,
            _ => false,
        }
    }

    pub fn is_embed(&self) -> (b: bool)
        ensures
            b == (self is Embed),
    {
        match self {
            SlashCommandResponse::Embed(_) => true,
            _ => false,
        }
    }

    pub fn is_timeout(&self) -> (b: bool)
        ensures
            b == (self is Timeout),
    {
        match self {
            SlashCommandResponse::Timeout => true,
            _ => false,
        }
    }

    /// The embed the reply is shown as: green for a success, red for a
    /// failure or a timeout, and an embed reply as it is.
    pub fn into_embed(self) -> (e: Embed)
        ensures
            match self {
                SlashCommandResponse::Success(t) => plain_embed(e, t@, GREEN),
                SlashCommandResponse::Failure(t) => plain_embed(e, t@, RED),
                SlashCommandResponse::Timeout => plain_embed(e, timeout_text(), RED),
                SlashCommandResponse::Embed(x) => e == x,
            },
    {
        match self {
            SlashCommandResponse::Success(t) => Embed::described(t, GREEN),
            SlashCommandResponse::Failure(t) => Embed::described(t, RED),
            SlashCommandResponse::Timeout => Embed::described(
                str_to_string("Couldn't find any command response after 10s"),
                RED,
            ),
            SlashCommandResponse::Embed(x) => x,
        }
    }
}

/// The unit of a mute duration.
#[derive(Debug, Clone, Copy, PartialEq, Eq, Structural)]
pub enum TimeUnit {
    Minute,
    Hour,
    Day,
}

pub open spec fn unit_char(u: TimeUnit) -> char {
    match u {
        TimeUnit::Minute => 'm',
        TimeUnit::Hour => 'h',
        TimeUnit::Day => 'd',
    }
}

impl TimeUnit {
    /// The letter of the unit in a Hypixel duration (`m`, `h` or `d`).
    pub fn as_char(&self) -> (c: char)
        ensures
            c == unit_char(*self),
    {
        match self {
            TimeUnit::Minute => 'm',
            TimeUnit::Hour => 'h',
            TimeUnit::Day => 'd',
        }
    }
}

/// The decimal digits of `n`.
pub open spec fn decimal(n: nat) -> Seq<char>
    decreases n,
{
    if n < 10 {
        seq![digit(n)]
    } else {
        decimal(n / 10).push(digit(n % 10))
    }
}

pub open spec fn digit(d: nat) -> char {
    if d == 0 {
        '0'
    } else if d == 1 {
        '1'
    } else if d == 2 {
        '2'
    } else if d == 3 {
        '3'
    } else if d == 4 {
        '4'
    } else if d == 5 {
        '5'
    } else if d == 6 {
        '6'
    } else if d == 7 {
        '7'
    } else if d == 8 {
        '8'
    } else {
        '9'
    }
}

fn digit_exec(d: u64) -> (c: char)
    requires
        d < 10,
    ensures
        c == digit(d as nat),
{
    if d == 0 {
        '0'
    } else if d == 1 {
        '1'
    } else if d == 2 {
        '2'
    } else if d == 3 {
        '3'
    } else if d == 4 {
        '4'
    } else if d == 5 {
        '5'
    } else if d == 6 {
        '6'
    } else if d == 7 {
        '7'
    } else if d == 8 {
        '8'
    } else {
        '9'
    }
}

/// Appends the decimal digits of `n`.
pub fn push_decimal(s: &mut String, n: u64)
    ensures
        final(s)@ == old(s)@ + decimal(n as nat),
    decreases n,
{
    if n >= 10 {
        push_decimal(s, n / 10);
    }
    s.push(digit_exec(n % 10));
    proof {
        if n >= 10 {
            assert(decimal(n as nat) == decimal((n / 10) as nat).push(digit((n % 10) as nat)));
        }
        assert(old(s)@ + decimal(n as nat) =~= final(s)@);
    }
}

/// A command to run in Minecraft.
#[derive(Debug, Clone, PartialEq, Eq)]
pub enum MinecraftCommand {
    /// Write `author: message` to a chat.
    ChatMessage(String, String, Chat),
    /// Run a raw command (without its leading slash).
    Execute(String),
    Promote(String),
    Demote(String),
    SetRank(String, String),
    Invite(String),
    /// Kick a player, with a reason.
    Kick(String, String),
    /// Mute a player (or `everyone`) for a duration.
    Mute(String, u8, TimeUnit),
    Unmute(String),
}

/// The text typed into Minecraft for a command.
pub open spec fn command_text(c: MinecraftCommand) -> Seq<char> {
    match c {
        MinecraftCommand::ChatMessage(a, m, chat) => "/"@ + prefix_of(chat) + " "@ + a@ + ": "@
            + m@,
        MinecraftCommand::Execute(x) => "/"@ + x@,
        MinecraftCommand::Promote(p) => "/g promote "@ + p@,
        MinecraftCommand::Demote(p) => "/g demote "@ + p@,
        MinecraftCommand::SetRank(p, r) => "/g setrank "@ + p@ + " "@ + r@,
        MinecraftCommand::Invite(p) => "/g invite "@ + p@,
        MinecraftCommand::Kick(p, r) => "/g kick "@ + p@ + " "@ + r@,
        MinecraftCommand::Mute(p, d, u) => "/g mute "@ + p@ + " "@ + decimal(d as nat).push(
            unit_char(u),
        ),
        MinecraftCommand::Unmute(p) => "/g unmute "@ + p@,
    }
}

impl MinecraftCommand {
    /// The text typed into Minecraft for this command.
    pub fn text(&self) -> (t: String)
        ensures
            t@ == command_text(*self),
    {
        match self {
            MinecraftCommand::ChatMessage(a, m, chat) => {
                let t = concat(str_to_string("/"), chat.prefix());
                let t = concat(t, " ");
                let t = concat(t, a.as_str());
                let t = concat(t, ": ");
                concat(t, m.as_str())
            },
            MinecraftCommand::Execute(x) => concat(str_to_string("/"), x.as_str()),
            MinecraftCommand::Promote(p) => concat(str_to_string("/g promote "), p.as_str()),
            MinecraftCommand::Demote(p) => concat(str_to_string("/g demote "), p.as_str()),
            MinecraftCommand::SetRank(p, r) => {
                let t = concat(str_to_string("/g setrank "), p.as_str());
                let t = concat(t, " ");
                concat(t, r.as_str())
            },
            MinecraftCommand::Invite(p) => concat(str_to_string("/g invite "), p.as_str()),
            MinecraftCommand::Kick(p, r) => {
                let t = concat(str_to_string("/g kick "), p.as_str());
                let t = concat(t, " ");
                concat(t, r.as_str())
            },
            MinecraftCommand::Mute(p, d, u) => {
                let t = concat(str_to_string("/g mute "), p.as_str());
                let mut t = concat(t, " ");
                push_decimal(&mut t, *d as u64);
                t.push(u.as_char());
                proof {
                    assert(t@ =~= command_text(*self));
                }
                t
            },
            MinecraftCommand::Unmute(p) => concat(str_to_string("/g unmute "), p.as_str()),
        }
    }
}

/// What commands may know of the running bridge.
#[derive(Debug, Clone)]
pub struct Context {
    /// The username of the Minecraft bot.
    pub bot: String,
    /// The Discord channel of guild chat.
    pub guild_channel: u64,
    /// The Discord channel of officer chat.
    pub officer_channel: u64,
    /// The bridge's version.
    pub version: String,
}

/// A command run from Discord that may be carried out in Minecraft.
pub trait RunCommand {
    /// The type of answer the command gives.
    type Response;

    /// The command to send to Minecraft, or the answer if the input is invalid.
    fn get_command(&self, ctx: &Context) -> Result<MinecraftCommand, Self::Response>;

    /// Whether `event` answers the command, and the answer if it does.
    fn check_event(&self, ctx: &Context, event: &RawChatEvent) -> Option<Self::Response>;
}

/// `x` in backticks.
pub open spec fn tick(x: Seq<char>) -> Seq<char> {
    "`"@ + x + "`"@
}

/// The text shown for a server reply.
pub open spec fn response_text(r: Response) -> Seq<char> {
    match r {
        Response::PlayerNotInGuild(u) => tick(u@) + " is not in the guild"@,
        Response::PlayerNotFound(u) => "Could not find player "@ + tick(u@),
        Response::NoPermission => no_permission_text(),
        Response::BotNotInGuild => "I am not in a guild"@,
        Response::CommandDisabled => "This command is currently disabled"@,
        Response::UnknownCommand => "Unknown command"@,
    }
}

pub open spec fn no_permission_text() -> Seq<char> {
    "I don't have permission to run that command"@
}

/// `x` in backticks, as a string.
pub fn ticked(x: &str) -> (r: String)
    ensures
        r@ == tick(x@),
{
    concat(concat(str_to_string("`"), x), "`")
}

impl Response {
    /// The text shown for this reply.
    pub fn description(&self) -> (t: String)
        ensures
            t@ == response_text(*self),
    {
        match self {
            Response::PlayerNotInGuild(u) => concat(ticked(u.as_str()), " is not in the guild"),
            Response::PlayerNotFound(u) => {
                let t = str_to_string("Could not find player ");
                let x = ticked(u.as_str());
                concat(t, x.as_str())
            },
            Response::NoPermission => str_to_string("I don't have permission to run that command"),
            Response::BotNotInGuild => str_to_string("I am not in a guild"),
            Response::CommandDisabled => str_to_string("This command is currently disabled"),
            Response::UnknownCommand => str_to_string("Unknown command"),
        }
    }
}

/// The failure answer to a player name that is no valid IGN.
pub open spec fn invalid_ign_text(player: Seq<char>) -> Seq<char> {
    tick(player) + " is not a valid IGN"@
}

pub fn invalid_ign(player: &str) -> (r: SlashCommandResponse)
    ensures
        r matches SlashCommandResponse::Failure(t) && t@ == invalid_ign_text(player@),
{
    SlashCommandResponse::Failure(concat(ticked(player), " is not a valid IGN"))
}

/// The failure a server reply about `player` is, for commands that target
/// one player; `in_guild` says whether a player not in the guild counts, and
/// `bot_guild` whether the bot not being in a guild does.
pub open spec fn response_failure(
    player: Seq<char>,
    r: Response,
    in_guild: bool,
    bot_guild: bool,
) -> Option<Outcome> {
    match r {
        Response::PlayerNotInGuild(u) => if in_guild && eq_ignore_case(player, u@) {
            Some(Outcome::Failure(response_text(r)))
        } else {
            None
        },
        Response::PlayerNotFound(u) => if eq_ignore_case(player, u@) {
            Some(Outcome::Failure(response_text(r)))
        } else {
            None
        },
        Response::NoPermission => Some(Outcome::Failure(response_text(r))),
        Response::BotNotInGuild => if bot_guild {
            Some(Outcome::Failure(response_text(r)))
        } else {
            None
        },
        _ => None,
    }
}

/// Computes [`response_failure`].
pub fn failure_for(player: &str, r: &Response, in_guild: bool, bot_guild: bool) -> (o: Option<
    SlashCommandResponse,
>)
    ensures
        outcome(o) == response_failure(player@, *r, in_guild, bot_guild),
{
    match r {
        Response::PlayerNotInGuild(u) => if in_guild && str_eq_ignore_ascii_case(player, u.as_str()) {
            Some(SlashCommandResponse::Failure(r.description()))
        } else {
            None
        },
        Response::PlayerNotFound(u) => if str_eq_ignore_ascii_case(player, u.as_str()) {
            Some(SlashCommandResponse::Failure(r.description()))
        } else {
            None
        },
        Response::NoPermission => Some(SlashCommandResponse::Failure(r.description())),
        Response::BotNotInGuild => if bot_guild {
            Some(SlashCommandResponse::Failure(r.description()))
        } else {
            None
        },
        _ => None,
    }
}

/// The messages by which the server refused a command for lack of permission,
/// as the first command handlers knew them.
pub open spec fn first_no_permission_message(s: Seq<char>) -> bool {
    ||| s == "You must be the Guild Master to use that command!"@
    ||| s == "You do not have permission to use this command!"@
    ||| s == "I'm sorry, but you do not have permission to perform this command. Please contact the server administrators if you believe that this is in error."@
}

/// The player a "not in your guild" message names.
pub open spec fn not_in_guild_name(m: Seq<char>) -> Option<Seq<char>> {
    match not_in_guild_line(m) {
        Some(c) => Some(cap(m, c[0])),
        None => None,
    }
}

/// The player a "can't find a player" message names.
pub open spec fn not_found_name(m: Seq<char>) -> Option<Seq<char>> {
    match player_not_found_line(m) {
        Some(c) => Some(cap(m, c[0])),
        None => None,
    }
}

/// The reply common to several commands that a message is, if any: `Err`
/// holds the text of a failure.  The name a message gives is compared with
/// the targeted player, ignoring ASCII case.
pub open spec fn default_reply(message: Seq<char>, user: Seq<char>) -> Option<
    Result<Seq<char>, Seq<char>>,
> {
    if not_in_guild_name(message) is Some && eq_ignore_case(user, not_in_guild_name(message)->0) {
        Some(Err(tick(not_in_guild_name(message)->0) + " is not in the guild"@))
    } else if not_found_name(message) is Some && eq_ignore_case(not_found_name(message)->0, user) {
        Some(Err("Could not find player "@ + tick(not_found_name(message)->0)))
    } else if first_no_permission_message(trim(message)) {
        Some(Err(no_permission_text()))
    } else if unknown_command_message(message) {
        Some(Err("Unknown command"@))
    } else if message == "This command is currently disabled."@ {
        Some(Err("This command is currently disabled"@))
    } else {
        None
    }
}

/// Handler for replies which are common to multiple commands.
pub fn default(message: &str, user: &str) -> (r: Option<Result<String, String>>)
    ensures
        match default_reply(message@, user@) {
            None => r is None,
            Some(Ok(t)) => r matches Some(Ok(x)) && x@ == t,
            Some(Err(t)) => r matches Some(Err(x)) && x@ == t,
        },
{
    let s = chars_of(message);
    let n = s.len();
    if let Some(c) = crate::chat::ranked_in(
        Tail::Plain(Simple::WordThen(Phrase::NotInYourGuild)),
        &s,
        0,
    ) {
        let u = crate::chat::cap_exec(&s, &c, 0);
        if str_eq_ignore_ascii_case(user, u.as_str()) {
            return Some(Err(concat(ticked(u.as_str()), " is not in the guild")));
        }
    }
    let h = "Can't find a player by the name of '";
    if lit_at_exec(&s, 0, h) {
        let hl = h.unicode_len();
        if let Some(c) = crate::chat::simple_in(Simple::WordThen(Phrase::Quote), &s, hl) {
            let u = crate::chat::cap_exec(&s, &c, 0);
            if str_eq_ignore_ascii_case(u.as_str(), user) {
                let x = ticked(u.as_str());
                return Some(Err(concat(str_to_string("Could not find player "), x.as_str())));
            }
        }
    }
    let (a, b) = trim_bounds(&s);
    if eq_str(&s, a, b, "You must be the Guild Master to use that command!") || eq_str(
        &s,
        a,
        b,
        "You do not have permission to use this command!",
    ) || eq_str(
        &s,
        a,
        b,
        "I'm sorry, but you do not have permission to perform this command. Please contact the server administrators if you believe that this is in error.",
    ) {
        return Some(Err(str_to_string("I don't have permission to run that command")));
    }
    proof {
        assert(s@.subrange(0, n as int) =~= s@);
    }
    if eq_str(&s, 0, n, "Unknown command. Type \"/help\" for help.") || eq_str(
        &s,
        0,
        n,
        "Unknown or incomplete command, see below for error",
    ) {
        return Some(Err(str_to_string("Unknown command")));
    }
    if eq_str(&s, 0, n, "This command is currently disabled.") {
        return Some(Err(str_to_string("This command is currently disabled")));
    }
    None
}


/// What each command types into Minecraft: the guild command for its kind,
/// then the player, then what else it carries; a relayed message goes to its
/// own chat's command under its author.
pub proof fn lemma_command_texts(p: String, r: String, d: u8, u: TimeUnit, chat: Chat)
    ensures
        command_text(MinecraftCommand::Promote(p)) == "/g promote "@ + p@,
        command_text(MinecraftCommand::Demote(p)) == "/g demote "@ + p@,
        command_text(MinecraftCommand::SetRank(p, r)) == "/g setrank "@ + p@ + " "@ + r@,
        command_text(MinecraftCommand::Invite(p)) == "/g invite "@ + p@,
        command_text(MinecraftCommand::Kick(p, r)) == "/g kick "@ + p@ + " "@ + r@,
        command_text(MinecraftCommand::Unmute(p)) == "/g unmute "@ + p@,
        command_text(MinecraftCommand::Mute(p, d, u)) == "/g mute "@ + p@ + " "@ + decimal(d as nat)
            + seq![
            match u {
                TimeUnit::Minute => 'm',
                TimeUnit::Hour => 'h',
                TimeUnit::Day => 'd',
            },
        ],
        command_text(MinecraftCommand::Execute(p)) == "/"@ + p@,
        command_text(MinecraftCommand::ChatMessage(p, r, chat)) == "/"@ + (match chat {
            Chat::Guild => "gc"@,
            Chat::Officer => "oc"@,
        }) + " "@ + p@ + ": "@ + r@,
{
    let t = decimal(d as nat);
    assert(t.push(unit_char(u)) =~= t + seq![unit_char(u)]);
    assert("/g mute "@ + p@ + " "@ + t.push(unit_char(u)) =~= "/g mute "@ + p@ + " "@ + t
        + seq![unit_char(u)]);
}

/// The shared reply handler answers a "not in your guild" line naming the
/// targeted player (ignoring ASCII case) with that failure, and gives no
/// answer when it names someone else.
pub proof fn lemma_default_not_in_guild(name: Seq<char>, user: Seq<char>)
    requires
        crate::chat::plain_name(name),
        !crate::text::word_char(' '),
    ensures
        default_reply(name + " is not in your guild!"@, user) == (if eq_ignore_case(user, name) {
            Some(Err::<Seq<char>, Seq<char>>("`"@ + name + "`"@ + " is not in the guild"@))
        } else {
            None
        }),
{
    reveal_strlit(" is not in your guild!");
    lemma_not_in_guild_spans(name);
    let a = name + " is not in your guild!"@;
    assert(cap(a, (0int, name.len() as int)) =~= name);
    assert(tick(name) + " is not in the guild"@ =~= "`"@ + name + "`"@ + " is not in the guild"@);
    if !eq_ignore_case(user, name) {
        lemma_name_line_not_cant_find(name, a);
        assert(a[0] == name[0]);
        assert(a[a.len() - 1] == '!');
        lemma_trimmed_line(a);
        assert(a[a.len() - 3] == 'l');
        lemma_not_fixed_reply(a, 'l', '!');
    }
}

/// The shared reply handler answers a "can't find a player" line naming the
/// targeted player (ignoring ASCII case) with that failure, and gives no
/// answer when it names someone else.
pub proof fn lemma_default_not_found(name: Seq<char>, user: Seq<char>)
    requires
        crate::chat::plain_name(name),
        !crate::text::word_char('\''),
    ensures
        default_reply("Can't find a player by the name of '"@ + name + "'"@, user) == (if eq_ignore_case(
            name,
            user,
        ) {
            Some(Err::<Seq<char>, Seq<char>>("Could not find player "@ + "`"@ + name + "`"@))
        } else {
            None
        }),
{
    reveal_strlit("Can't find a player by the name of '");
    reveal_strlit("'");
    lemma_not_found_spans(name);
    let b = "Can't find a player by the name of '"@ + name + "'"@;
    assert(cap(b, (36int, 36 + name.len() as int)) =~= name);
    assert("Could not find player "@ + tick(name) =~= "Could not find player "@ + "`"@ + name
        + "`"@);
    assert(b[0] == 'C' && b[1] == 'a' && b[2] == 'n' && b[3] == '\'');
    lemma_cant_find_not_in_guild(b);
    if !eq_ignore_case(name, user) {
        assert(b[b.len() - 1] == '\'');
        lemma_trimmed_line(b);
        lemma_not_fixed_reply(b, b[b.len() - 3], '\'');
    }
}

/// A plain name followed by a space starts no "can't find" line.
proof fn lemma_name_line_not_cant_find(name: Seq<char>, a: Seq<char>)
    requires
        crate::chat::plain_name(name),
        a.len() > name.len(),
        a.subrange(0, name.len() as int) == name,
        a[name.len() as int] == ' ',
    ensures
        !crate::grammar::lit_at(a, 0, "Can't find a player by the name of '"@),
{
    reveal_strlit("Can't find a player by the name of '");
    let n = name.len() as int;
    let h = "Can't find a player by the name of '"@;
    if crate::grammar::lit_at(a, 0, h) {
        if n >= 4 {
            assert(a[3] == a.subrange(0, n)[3]);
            assert(crate::text::ascii_word(name[3]));
            assert(crate::grammar::phrase_char_ok(a[0int + 3], h[3]));
        } else {
            assert(crate::grammar::phrase_char_ok(a[0 + n], h[n]));
        }
    }
}

/// A line that starts and ends with no white space is its own trimmed text.
proof fn lemma_trimmed_line(s: Seq<char>)
    requires
        s.len() > 0,
        !crate::text::white_space(s[0]),
        !crate::text::white_space(s[s.len() - 1]),
    ensures
        trim(s) == s,
{
    assert(crate::text::first_solid(s, 0) == 0);
    assert(crate::text::last_solid(s, s.len() as int) == s.len());
    assert(s.subrange(0, s.len() as int) =~= s);
}

/// A line whose third-last and last characters are `c3` and `c1` is none of
/// the server's fixed replies when those differ from theirs.
proof fn lemma_not_fixed_reply(s: Seq<char>, c3: char, c1: char)
    requires
        s.len() >= 3,
        s[s.len() - 3] == c3,
        s[s.len() - 1] == c1,
        c1 != '.' && c1 != 'r',
        c3 != 'n' || c1 != '!',
        trim(s) == s,
    ensures
        !first_no_permission_message(trim(s)),
        !unknown_command_message(s),
        s != "This command is currently disabled."@,
{
    reveal_strlit("You must be the Guild Master to use that command!");
    reveal_strlit("You do not have permission to use this command!");
    reveal_strlit(
        "I'm sorry, but you do not have permission to perform this command. Please contact the server administrators if you believe that this is in error.",
    );
    reveal_strlit("Unknown command. Type \"/help\" for help.");
    reveal_strlit("Unknown or incomplete command, see below for error");
    reveal_strlit("This command is currently disabled.");
    let l1 = "You must be the Guild Master to use that command!"@;
    let l2 = "You do not have permission to use this command!"@;
    let l3 = "I'm sorry, but you do not have permission to perform this command. Please contact the server administrators if you believe that this is in error."@;
    let l4 = "Unknown command. Type \"/help\" for help."@;
    let l5 = "Unknown or incomplete command, see below for error"@;
    let l6 = "This command is currently disabled."@;
    if s == l1 {
        assert(s[s.len() - 3] == l1[l1.len() - 3]);
    }
    if s == l2 {
        assert(s[s.len() - 3] == l2[l2.len() - 3]);
    }
    if s == l3 {
        assert(s[s.len() - 1] == l3[l3.len() - 1]);
    }
    if s == l4 {
        assert(s[s.len() - 1] == l4[l4.len() - 1]);
    }
    if s == l5 {
        assert(s[s.len() - 1] == l5[l5.len() - 1]);
    }
    if s == l6 {
        assert(s[s.len() - 1] == l6[l6.len() - 1]);
    }
}

/// A line starting `Can'` names no player not in the guild.
proof fn lemma_cant_find_not_in_guild(b: Seq<char>)
    requires
        !crate::text::word_char('\''),
        b.len() > 5,
        b[0] == 'C',
        b[1] == 'a',
        b[2] == 'n',
        b[3] == '\'',
    ensures
        not_in_guild_line(b) is None,
{
    reveal_strlit(" is not in your guild!");
    crate::chat::lemma_no_rank(Tail::Plain(Simple::WordThen(Phrase::NotInYourGuild)), b, 0, 4);
    crate::grammar::lemma_run_end(b, 0);
    let e = crate::grammar::run_end(b, 0);
    if 0 < e && crate::grammar::lit_at(b, e, crate::grammar::phrase(Phrase::NotInYourGuild)) {
        assert(crate::grammar::phrase_char_ok(
            b[e + 0],
            crate::grammar::phrase(Phrase::NotInYourGuild)[0],
        ));
        if e > 3 {
            assert(crate::text::word_char(b[3]));
        }
    }
}

proof fn lemma_not_in_guild_spans(name: Seq<char>)
    requires
        crate::chat::plain_name(name),
        !crate::text::word_char(' '),
    ensures
        not_in_guild_line(name + " is not in your guild!"@) == Some(
            seq![(0int, name.len() as int)],
        ),
{
    reveal_strlit(" is not in your guild!");
    let lit = " is not in your guild!"@;
    let s = name + lit;
    let n = name.len() as int;
    assert(s[0] == name[0]);
    assert forall|k: int| 0 <= k < n implies crate::text::word_char(#[trigger] s[k]) by {
        assert(s[k] == name[k]);
    }
    assert(s[n] == ' ');
    crate::grammar::lemma_run_end(s, 0);
    let e = crate::grammar::run_end(s, 0);
    if e > n {
        assert(crate::text::word_char(s[n]));
    }
    if e < n {
        assert(crate::text::word_char(s[e]));
    }
    crate::chat::lemma_no_rank(Tail::Plain(Simple::WordThen(Phrase::NotInYourGuild)), s, 0, 4);
    assert forall|k: int| 0 <= k < lit.len() implies crate::grammar::phrase_char_ok(
        #[trigger] s[n + k],
        lit[k],
    ) by {
        assert(s[n + k] == lit[k]);
    }
}

proof fn lemma_not_found_spans(name: Seq<char>)
    requires
        crate::chat::plain_name(name),
        !crate::text::word_char('\''),
    ensures
        player_not_found_line("Can't find a player by the name of '"@ + name + "'"@) == Some(
            seq![(36int, 36 + name.len() as int)],
        ),
{
    reveal_strlit("Can't find a player by the name of '");
    reveal_strlit("'");
    let h = "Can't find a player by the name of '"@;
    let s = h + name + "'"@;
    let n = name.len() as int;
    assert forall|k: int| 0 <= k < h.len() implies crate::grammar::phrase_char_ok(
        #[trigger] s[0 + k],
        h[k],
    ) by {
        assert(s[k] == h[k]);
    }
    assert forall|k: int| 36 <= k < 36 + n implies crate::text::word_char(#[trigger] s[k]) by {
        assert(s[k] == name[k - 36]);
    }
    assert(s[36 + n] == '\'');
    crate::grammar::lemma_run_end(s, 36);
    let e = crate::grammar::run_end(s, 36);
    if e > 36 + n {
        assert(crate::text::word_char(s[36 + n]));
    }
    if e < 36 + n {
        assert(crate::text::word_char(s[e]));
    }
    assert(crate::grammar::phrase_char_ok(s[(36 + n) + 0], "'"@[0]));
}

} // verus!
