//! `/help`: what the reactions mean and how the bridge is set up.

use crate::commands::{
    blank, decimal, push_decimal, Context, Embed, EmbedField, EmbedView, MinecraftCommand,
    RunCommand, SlashCommandResponse, GREEN,
};
use crate::discord::{avatar_text, avatar_url};
use crate::events::RawChatEvent;
use crate::reactions::{all_reactions, description_of, emoji_of, Reaction};
use crate::text::{concat, str_to_string};
use vstd::prelude::*;

verus! {

/// Displays the help message for the bridge.
#[derive(Debug, Clone, Copy)]
pub struct HelpCommand;

/// The line that explains a reaction.
pub open spec fn reaction_line(r: Reaction) -> Seq<char> {
    "`"@ + emoji_of(r) + "`: "@ + description_of(r)
}

/// The lines explaining the reactions `s`, joined by newlines.
pub open spec fn reaction_lines(s: Seq<Reaction>) -> Seq<char>
    decreases s.len(),
{
    if s.len() == 0 {
        Seq::empty()
    } else if s.len() == 1 {
        reaction_line(s[0])
    } else {
        reaction_lines(s.drop_last()) + "\n"@ + reaction_line(s.last())
    }
}

/// Where the bridge posts and which version it is.
pub open spec fn info_text(guild: u64, officer: u64, version: Seq<char>) -> Seq<char> {
    "Guild Channel: <#"@ + decimal(guild as nat) + ">\nOfficer Channel: <#"@ + decimal(
        officer as nat,
    ) + ">\nVersion: `"@ + version + "`"@
}

/// The help embed for a running bridge.
pub open spec fn help_embed(guild: u64, officer: u64, version: Seq<char>) -> EmbedView {
    EmbedView {
        title: Some("Bridge Help"@),
        fields: seq![
            ("Reactions"@, reaction_lines(all_reactions())),
            ("Info"@, info_text(guild, officer, version)),
        ],
        footer: Some("Created by neyoa"@),
        footer_icon: Some(avatar_text("neyoa"@)),
        ..blank(GREEN)
    }
}

fn reactions_text() -> (t: String)
    ensures
        t@ == reaction_lines(all_reactions()),
{
    let all = Reaction::all();
    let mut t = String::new();
    let mut i: usize = 0;
    while i < all.len()
        invariant
            i <= all@.len(),
            all@ == all_reactions(),
            t@ == reaction_lines(all@.subrange(0, i as int)),
        decreases all@.len() - i,
    {
        let r = all[i];
        proof {
            assert(all@.subrange(0, i + 1).drop_last() =~= all@.subrange(0, i as int));
        }
        if i > 0 {
            t = concat(t, "\n");
        }
        t = concat(t, "`");
        t = concat(t, r.emoji());
        t = concat(t, "`: ");
        t = concat(t, r.description());
        proof {
            if i == 0 {
                assert(t@ =~= reaction_line(all@[0]));
            } else {
                assert(t@ =~= reaction_lines(all@.subrange(0, i as int)) + "\n"@ + reaction_line(
                    all@[i as int],
                ));
            }
        }
        i = i + 1;
    }
    proof {
        assert(all@.subrange(0, all@.len() as int) =~= all@);
    }
    t
}

fn info(ctx: &Context) -> (t: String)
    ensures
        t@ == info_text(ctx.guild_channel, ctx.officer_channel, ctx.version@),
{
    let mut t = str_to_string("Guild Channel: <#");
    push_decimal(&mut t, ctx.guild_channel);
    let mut t = concat(t, ">\nOfficer Channel: <#");
    push_decimal(&mut t, ctx.officer_channel);
    let t = concat(t, ">\nVersion: `");
    let t = concat(t, ctx.version.as_str());
    concat(t, "`")
}

impl RunCommand for HelpCommand {
    type Response = SlashCommandResponse;

    /// Never sends anything to Minecraft: always answers with the help embed.
    fn get_command(&self, ctx: &Context) -> (r: Result<MinecraftCommand, SlashCommandResponse>)
        ensures
            r matches Err(SlashCommandResponse::Embed(e)) && e@ == help_embed(
                ctx.guild_channel,
                ctx.officer_channel,
                ctx.version@,
            ),
    {
        let mut fields: Vec<EmbedField> = Vec::new();
        fields.push(EmbedField { name: str_to_string("Reactions"), value: reactions_text() });
        fields.push(EmbedField { name: str_to_string("Info"), value: info(ctx) });
        let mut e = Embed::blank(GREEN);
        e.title = Some(str_to_string("Bridge Help"));
        e.fields = fields;
        e.footer = Some(str_to_string("Created by neyoa"));
        e.footer_icon = Some(avatar_url("neyoa"));
        proof {
            assert(e@.fields =~= seq![
                ("Reactions"@, reaction_lines(all_reactions())),
                ("Info"@, info_text(ctx.guild_channel, ctx.officer_channel, ctx.version@)),
            ]);
        }
        Err(SlashCommandResponse::Embed(e))
    }

    /// No line answers `/help`: it never waits for Minecraft.
    fn check_event(&self, ctx: &Context, event: &RawChatEvent) -> (r: Option<SlashCommandResponse>)
        ensures
            r is None,
    {
        None
    }
}

} // verus!
