//! The decisions behind Discord interactions: which command runs, what it
//! answers, and what autocomplete offers.

use crate::commands::{
    basic, outcome, timeout_text, Context, Embed, MinecraftCommand, RunCommand,
    SlashCommandResponse, RED,
};
use crate::events::RawChatEvent;
use crate::execute::ExecuteCommand;
use crate::guild::GuildCommand;
use crate::help::HelpCommand;
use crate::text::{chars_of, concat, str_to_string};
use vstd::prelude::*;

verus! {

/// A slash command of the bridge.
#[derive(Debug, Clone)]
pub enum SlashCommand {
    Guild(GuildCommand),
    Help(HelpCommand),
    Execute(ExecuteCommand),
}

/// The names the bridge's slash commands are registered under.
pub open spec fn known_name(name: Seq<char>) -> bool {
    name == "guild"@ || name == "help"@ || name == "execute"@
}

/// Whether a slash command of that name exists.
pub fn is_known_command(name: &str) -> (b: bool)
    ensures
        b == known_name(name@),
{
    crate::text::str_equal(name, "guild") || crate::text::str_equal(name, "help")
        || crate::text::str_equal(name, "execute")
}

impl RunCommand for SlashCommand {
    type Response = SlashCommandResponse;

    fn get_command(&self, ctx: &Context) -> (r: Result<MinecraftCommand, SlashCommandResponse>)
        ensures
            match self {
                SlashCommand::Execute(x) => r matches Ok(MinecraftCommand::Execute(c))
                    && c@ == crate::execute::command_of(x.command@),
                SlashCommand::Help(_) => r matches Err(SlashCommandResponse::Embed(e)) && e@
                    == crate::help::help_embed(ctx.guild_channel, ctx.officer_channel, ctx.version@),
                SlashCommand::Guild(g) => crate::guild::guild_command_result(*g, r),
            },
    {
        match self {
            SlashCommand::Guild(x) => x.get_command(ctx),
            SlashCommand::Help(x) => x.get_command(ctx),
            SlashCommand::Execute(x) => x.get_command(ctx),
        }
    }

    fn check_event(&self, ctx: &Context, event: &RawChatEvent) -> (r: Option<SlashCommandResponse>)
        ensures
            match self {
                SlashCommand::Guild(g) => outcome(r) == crate::guild::guild_outcome(
                    *g,
                    ctx.bot@,
                    event.parsed(),
                ),
                SlashCommand::Help(_) => r is None,
                SlashCommand::Execute(x) => r matches Some(SlashCommandResponse::Embed(e))
                    && crate::execute::execute_embed(
                    e,
                    crate::execute::command_of(x.command@),
                    event@,
                    event.parsed(),
                ),
            },
    {
        match self {
            SlashCommand::Guild(x) => x.check_event(ctx, event),
            SlashCommand::Help(x) => x.check_event(ctx, event),
            SlashCommand::Execute(x) => x.check_event(ctx, event),
        }
    }
}

/// The answer to an interaction naming no known command.
pub fn not_found_embed() -> (e: Embed)
    ensures
        e@ == basic("Command not found"@, RED),
{
    Embed::described(str_to_string("Command not found"), RED)
}

/// The answer to a command whose name is unknown, as the first bridge gave
/// it.
pub fn unknown_command_embed(name: &str) -> (e: Embed)
    ensures
        e@ == basic("Command `"@ + name@ + "` could not be found"@, RED),
{
    let t = concat(concat(str_to_string("Command `"), name), "` could not be found");
    Embed::described(t, RED)
}

/// The answer to a command that failed to run.
pub fn failed_command_embed() -> (e: Embed)
    ensures
        e@ == basic("Something went wrong while trying to run that"@, RED),
{
    Embed::described(str_to_string("Something went wrong while trying to run that"), RED)
}

/// `e` is the embed a command's run ends with, given the answer found.
pub open spec fn ends_with_embed(found: Option<SlashCommandResponse>, e: Embed) -> bool {
    match found {
        Some(SlashCommandResponse::Success(t)) => e@ == basic(t@, crate::commands::GREEN),
        Some(SlashCommandResponse::Failure(t)) => e@ == basic(t@, RED),
        Some(SlashCommandResponse::Embed(x)) => e == x,
        Some(SlashCommandResponse::Timeout) | None => e@ == basic(timeout_text(), RED),
    }
}

/// The embed a command's run ends with: the answer found, or the timeout
/// notice when no line answered in time.
pub fn final_embed(found: Option<SlashCommandResponse>) -> (e: Embed)
    ensures
        ends_with_embed(found, e),
{
    match found {
        Some(r) => r.into_embed(),
        None => SlashCommandResponse::Timeout.into_embed(),
    }
}

/// A response to a command interaction.
#[derive(Debug)]
pub enum InteractionReply {
    /// Answer at once with this embed.
    Respond(Embed),
    /// Tell Discord the answer comes later.
    Defer,
    /// Edit the deferred answer to this embed.
    Update(Embed),
}

/// The first response to a command interaction: a name that is no known
/// command is answered at once with the not-found notice, and nothing runs;
/// a known command is deferred before it runs.
pub fn command_opening(name: &str) -> (r: InteractionReply)
    ensures
        known_name(name@) ==> r is Defer,
        !known_name(name@) ==> (r matches InteractionReply::Respond(e) && e@ == basic(
            "Command not found"@,
            RED,
        )),
{
    if is_known_command(name) {
        InteractionReply::Defer
    } else {
        InteractionReply::Respond(not_found_embed())
    }
}

/// The response that ends a deferred command interaction: `found` is the
/// refusal of the command's checks, else the answer Minecraft gave, or
/// `None` when none came in time.
pub fn command_closing(found: Option<SlashCommandResponse>) -> (r: InteractionReply)
    ensures
        r matches InteractionReply::Update(e) && ends_with_embed(found, e),
{
    InteractionReply::Update(final_embed(found))
}

/// The answer a command's run found: the refusal of its checks, else the
/// answer Minecraft gave (`None` when none came in time).
pub fn found_answer(
    checked: Result<MinecraftCommand, SlashCommandResponse>,
    answer: Option<SlashCommandResponse>,
) -> (r: Option<SlashCommandResponse>)
    ensures
        match checked {
            Err(x) => r == Some(x),
            Ok(_) => r == answer,
        },
{
    match checked {
        Err(x) => Some(x),
        Ok(_) => answer,
    }
}

/// The embed the first bridge edited a deferred command interaction to:
/// `ran` is `None` when no command has the name, else what the command gave,
/// `None` when it failed.
pub fn legacy_command_embed(name: &str, ran: Option<Option<Embed>>) -> (e: Embed)
    ensures
        match ran {
            None => e@ == basic("Command `"@ + name@ + "` could not be found"@, RED),
            Some(None) => e@ == basic("Something went wrong while trying to run that"@, RED),
            Some(Some(x)) => e == x,
        },
{
    match ran {
        None => unknown_command_embed(name),
        Some(None) => failed_command_embed(),
        Some(Some(x)) => x,
    }
}

/// The value of a slash command option, as far as autocomplete looks at it.
#[derive(Debug)]
pub enum OptionValue {
    /// The option being typed, with its text so far; `text` says whether the
    /// option takes a string.
    Focused { input: String, text: bool },
    /// A sub-command and its own options.
    SubCommand(Vec<OptionValue>),
    /// Any other value.
    Other,
}

/// The focused string input among options that are not sub-commands.
pub open spec fn focused_flat(options: Seq<OptionValue>) -> Option<Seq<char>>
    decreases options.len(),
{
    if options.len() == 0 {
        None
    } else {
        match options[0] {
            OptionValue::Focused { input, text } => if text {
                Some(input@)
            } else {
                focused_flat(options.drop_first())
            },
            _ => focused_flat(options.drop_first()),
        }
    }
}

/// The input autocomplete completes: the first option that is a focused
/// string, or the first focused string inside the first sub-command that
/// holds one.
pub open spec fn focused_input(options: Seq<OptionValue>) -> Option<Seq<char>>
    decreases options.len(),
{
    if options.len() == 0 {
        None
    } else {
        match options[0] {
            OptionValue::Focused { input, text } => if text {
                Some(input@)
            } else {
                focused_input(options.drop_first())
            },
            OptionValue::SubCommand(inner) => match focused_flat(inner@) {
                Some(x) => Some(x),
                None => focused_input(options.drop_first()),
            },
            OptionValue::Other => focused_input(options.drop_first()),
        }
    }
}

fn find_flat(options: &Vec<OptionValue>) -> (r: Option<String>)
    ensures
        match focused_flat(options@) {
            Some(x) => r matches Some(y) && y@ == x,
            None => r is None,
        },
{
    assert(options@.subrange(0, options@.len() as int) =~= options@);
    let mut i: usize = 0;
    while i < options.len()
        invariant
            i <= options@.len(),
            focused_flat(options@.subrange(i as int, options@.len() as int)) == focused_flat(
                options@,
            ),
        decreases options@.len() - i,
    {
        proof {
            assert(options@.subrange(i as int, options@.len() as int).drop_first() =~= options@.subrange(
                i + 1,
                options@.len() as int,
            ));
        }
        match &options[i] {
            OptionValue::Focused { input, text } => {
                if *text {
                    return Some(input.clone());
                }
            },
            _ => {},
        }
        i = i + 1;
    }
    None
}

/// Finds the input autocomplete completes.
pub fn find_focused(options: &Vec<OptionValue>) -> (r: Option<String>)
    ensures
        match focused_input(options@) {
            Some(x) => r matches Some(y) && y@ == x,
            None => r is None,
        },
{
    assert(options@.subrange(0, options@.len() as int) =~= options@);
    let mut i: usize = 0;
    while i < options.len()
        invariant
            i <= options@.len(),
            focused_input(options@.subrange(i as int, options@.len() as int)) == focused_input(
                options@,
            ),
        decreases options@.len() - i,
    {
        proof {
            assert(options@.subrange(i as int, options@.len() as int).drop_first() =~= options@.subrange(
                i + 1,
                options@.len() as int,
            ));
        }
        match &options[i] {
            OptionValue::Focused { input, text } => {
                if *text {
                    return Some(input.clone());
                }
            },
            OptionValue::SubCommand(inner) => {
                let found = find_flat(inner);
                if found.is_some() {
                    return found;
                }
            },
            OptionValue::Other => {},
        }
        i = i + 1;
    }
    None
}

/// The choices offered: at most the first 25 matches.
pub fn first_choices(matches: Vec<String>) -> (r: Vec<String>)
    ensures
        r@ == if matches@.len() <= 25 {
            matches@
        } else {
            matches@.take(25)
        },
{
    let mut r: Vec<String> = Vec::new();
    let mut i: usize = 0;
    let n = if matches.len() <= 25 {
        matches.len()
    } else {
        25
    };
    while i < n
        invariant
            i <= n <= matches@.len(),
            n == if matches@.len() <= 25 {
                matches@.len()
            } else {
                25
            },
            r@ == matches@.take(i as int),
        decreases n - i,
    {
        r.push(matches[i].clone());
        proof {
            assert(r@ =~= matches@.take(i + 1));
        }
        i = i + 1;
    }
    proof {
        assert(matches@.take(matches@.len() as int) =~= matches@);
    }
    r
}

// ---------------------------------------------------------------------------
// Waiting for a reply
// ---------------------------------------------------------------------------

/// How waiting for Minecraft's reply to a command ended.
#[derive(Debug)]
pub enum Wait {
    /// A reply was found: `Ok` holds the text of a success, `Err` that of a
    /// failure.
    Answered(Result<String, String>),
    /// The replies stopped coming before one answered.
    Closed,
    /// No reply answered within ten seconds.
    TimedOut,
}

/// The text and colour a reply is shown with.
pub open spec fn reply_view(w: Wait) -> (Seq<char>, u32) {
    match w {
        Wait::Answered(Ok(t)) => (t@, crate::commands::GREEN),
        Wait::Answered(Err(t)) => (t@, RED),
        Wait::Closed => ("Something went wrong"@, RED),
        Wait::TimedOut => ("Response not found after `10s`"@, RED),
    }
}

/// The text and colour a reply is shown with.
pub fn reply_of(w: Wait) -> (r: (String, u32))
    ensures
        (r.0@, r.1) == reply_view(w),
{
    match w {
        Wait::Answered(Ok(t)) => (t, crate::commands::GREEN),
        Wait::Answered(Err(t)) => (t, RED),
        Wait::Closed => (str_to_string("Something went wrong"), RED),
        Wait::TimedOut => (str_to_string("Response not found after `10s`"), RED),
    }
}

// ---------------------------------------------------------------------------
// Options of a command
// ---------------------------------------------------------------------------

/// The value given to an option.
#[derive(Debug, Clone)]
pub enum OptionData {
    Text(String),
    Integer(i64),
    Other,
}

/// An option as a command receives it.
#[derive(Debug, Clone)]
pub struct CommandDataOption {
    pub name: String,
    pub value: Option<OptionData>,
}

/// Where the first option of that name is, looking from `i` on.
pub open spec fn option_index(options: Seq<CommandDataOption>, name: Seq<char>, i: int) -> Option<
    int,
>
    decreases options.len() - i,
{
    if i < 0 || i >= options.len() {
        None
    } else if options[i].name@ == name {
        Some(i)
    } else {
        option_index(options, name, i + 1)
    }
}

/// The value of the first option of that name, if it has one.
pub open spec fn option_value(options: Seq<CommandDataOption>, name: Seq<char>) -> Option<OptionData> {
    match option_index(options, name, 0) {
        Some(i) => options[i].value,
        None => None,
    }
}

/// The value of the first option of that name, if it has one.
pub fn get_option<'a>(options: &'a Vec<CommandDataOption>, name: &str) -> (r: Option<&'a OptionData>)
    ensures
        match option_value(options@, name@) {
            Some(v) => r matches Some(x) && *x == v,
            None => r is None,
        },
{
    let mut i: usize = 0;
    while i < options.len()
        invariant
            i <= options@.len(),
            option_index(options@, name@, i as int) == option_index(options@, name@, 0),
        decreases options@.len() - i,
    {
        if crate::text::str_equal(options[i].name.as_str(), name) {
            return match &options[i].value {
                Some(v) => Some(v),
                None => None,
            };
        }
        i = i + 1;
    }
    None
}

/// The text of the first option of that name, trimmed, if it is text.
pub fn get_str(options: &Vec<CommandDataOption>, name: &str) -> (r: Option<String>)
    ensures
        match option_value(options@, name@) {
            Some(OptionData::Text(t)) => r matches Some(x) && x@ == crate::text::trim(t@),
            _ => r is None,
        },
{
    match get_option(options, name) {
        Some(OptionData::Text(t)) => {
            let v = chars_of(t.as_str());
            let (a, b) = crate::text::trim_bounds(&v);
            Some(crate::text::string_of(&v, a, b))
        },
        _ => None,
    }
}

/// The integer of the first option of that name, if it is an integer.
pub fn get_int(options: &Vec<CommandDataOption>, name: &str) -> (r: Option<i64>)
    ensures
        match option_value(options@, name@) {
            Some(OptionData::Integer(n)) => r == Some(n),
            _ => r is None,
        },
{
    match get_option(options, name) {
        Some(OptionData::Integer(n)) => Some(*n),
        _ => None,
    }
}

/// The text of the first option of that name, as chosen, if it is text.
pub fn get_choice(options: &Vec<CommandDataOption>, name: &str) -> (r: Option<String>)
    ensures
        match option_value(options@, name@) {
            Some(OptionData::Text(t)) => r matches Some(x) && x@ == t@,
            _ => r is None,
        },
{
    match get_option(options, name) {
        Some(OptionData::Text(t)) => Some(t.clone()),
        _ => None,
    }
}


/// A command's run ends with its success text in green, its failure text in
/// red, its own embed as it is, or, when nothing answered in time, the
/// timeout notice in red.
pub proof fn lemma_final_embeds(t: String, x: Embed, e: Embed)
    ensures
        ends_with_embed(Some(SlashCommandResponse::Success(t)), e) <==> e@ == basic(t@, 0x47f04a),
        ends_with_embed(Some(SlashCommandResponse::Failure(t)), e) <==> e@ == basic(t@, 0xf04a47),
        ends_with_embed(Some(SlashCommandResponse::Embed(x)), e) <==> e == x,
        ends_with_embed(None, e) <==> e@ == basic(
            "Couldn't find any command response after 10s"@,
            0xf04a47,
        ),
        ends_with_embed(Some(SlashCommandResponse::Timeout), e) <==> e@ == basic(
            "Couldn't find any command response after 10s"@,
            0xf04a47,
        ),
{
}

} // verus!
