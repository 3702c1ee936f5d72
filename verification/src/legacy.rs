//! The first slash commands that answered from Minecraft's replies, kept
//! beside the `/guild` ones: they read the rank-limit messages with the
//! pattern as first written and do not answer when the bot is in no guild.

use crate::chat::{cap, cap_exec};
use crate::commands::{
    failure_for, invalid_ign, invalid_ign_text, no_permission_text, outcome, response_failure,
    tick, ticked, Context, MinecraftCommand, Outcome, RunCommand, SlashCommandResponse,
};
use crate::events::{ChatEvent, GuildEvent, Moderation, RawChatEvent};
use crate::grammar::{search, simple, Phrase, Simple, Tail};
use crate::guild::{
    checked_player, is_message, rank_change, rank_change_text,
    search_name, target_exec, target_of,
};
use crate::sanitizer::{clean, clean_string, is_valid_ign, valid_ign};
use crate::text::{chars_of, concat, eq_ignore_case, str_eq_ignore_ascii_case, str_to_string, string_of};
use vstd::prelude::*;

verus! {

/// The optional prefix of the rank-limit message as its pattern is written:
/// `(?:\\[.+?\\] )?` is a backslash, one of `.+?\` and a space.
pub open spec fn escaped_prefix(m: Seq<char>) -> bool {
    &&& m.len() >= 3
    &&& m[0] == '\\'
    &&& (m[1] == '.' || m[1] == '+' || m[1] == '?' || m[1] == '\\')
    &&& m[2] == ' '
}

/// `^(?:\\[.+?\\] )?(\w+)PHRASE$`, the pattern of the rank-limit messages as
/// it is written.
pub open spec fn escaped_line(m: Seq<char>, p: Phrase) -> Option<Seq<crate::grammar::Span>> {
    let x = Simple::WordThen(p);
    if escaped_prefix(m) && simple(x, m, 3) is Some {
        simple(x, m, 3)
    } else {
        simple(x, m, 0)
    }
}

/// The name an escaped rank-limit message carries.
fn escaped_name(s: &Vec<char>, p: Phrase) -> (r: Option<String>)
    ensures
        match escaped_line(s@, p) {
            Some(c) => r matches Some(y) && y@ == cap(s@, c[0]),
            None => r is None,
        },
{
    let x = Simple::WordThen(p);
    let n = s.len();
    if n >= 3 && s[0] == '\\' && (s[1] == '.' || s[1] == '+' || s[1] == '?' || s[1] == '\\')
        && s[2] == ' ' {
        if let Some(c) = crate::chat::simple_in(x, s, 3) {
            return Some(cap_exec(s, &c, 0));
        }
    }
    match crate::chat::simple_in(x, s, 0) {
        Some(c) => Some(cap_exec(s, &c, 0)),
        None => None,
    }
}

// ---------------------------------------------------------------------------
// promote
// ---------------------------------------------------------------------------

/// Promotes a player by one guild rank.
#[derive(Debug, Clone)]
pub struct PromoteCommand {
    /// The player to promote.
    pub player: String,
}

/// How a server line that no event covers answers a promotion of `player`.
pub open spec fn promote_unknown(player: Seq<char>, m: Seq<char>) -> Option<Outcome> {
    let first = match escaped_line(m, Phrase::AlreadyHighest) {
        Some(c) => if eq_ignore_case(player, cap(m, c[0])) {
            Some(Outcome::Failure(tick(cap(m, c[0])) + " is already the highest rank"@))
        } else {
            None
        },
        None => None,
    };
    if first is Some {
        first
    } else if m == "You can only promote up to your own rank!"@ || (search(
        Tail::Plain(Simple::WordBefore(Phrase::MasterNoPromote)),
        m,
        0,
    ) matches Some(c) && eq_ignore_case(player, cap(m, c[0]))) {
        Some(Outcome::Failure(no_permission_text()))
    } else {
        None
    }
}

/// How an event answers a promotion of `player`.
pub open spec fn promote_outcome(player: Seq<char>, e: ChatEvent) -> Option<Outcome> {
    match e {
        ChatEvent::GuildEvent(GuildEvent::Promotion { member, old_rank, new_rank }) => if eq_ignore_case(
            player,
            member@,
        ) {
            Some(
                Outcome::Success(
                    rank_change_text(member@, " has been promoted from "@, old_rank@, new_rank@),
                ),
            )
        } else {
            None
        },
        ChatEvent::Unknown(m) => promote_unknown(player, m@),
        ChatEvent::CommandResponse(r) => response_failure(player, r, true, false),
        _ => None,
    }
}

impl RunCommand for PromoteCommand {
    type Response = SlashCommandResponse;

    fn get_command(&self, ctx: &Context) -> (r: Result<MinecraftCommand, SlashCommandResponse>)
        ensures
            checked_player(self.player@, r),
            r matches Ok(c) ==> c matches MinecraftCommand::Promote(p) && p@ == self.player@,
    {
        if !is_valid_ign(self.player.as_str()) {
            return Err(invalid_ign(self.player.as_str()));
        }
        Ok(MinecraftCommand::Promote(str_to_string(self.player.as_str())))
    }

    fn check_event(&self, ctx: &Context, event: &RawChatEvent) -> (r: Option<SlashCommandResponse>)
        ensures
            outcome(r) == promote_outcome(self.player@, event.parsed()),
    {
        let event = event.as_chat_event();
        let player = self.player.as_str();
        match event {
            ChatEvent::GuildEvent(GuildEvent::Promotion { member, old_rank, new_rank }) => {
                if str_eq_ignore_ascii_case(player, member.as_str()) {
                    Some(
                        SlashCommandResponse::Success(
                            rank_change(
                                member.as_str(),
                                " has been promoted from ",
                                old_rank.as_str(),
                                new_rank.as_str(),
                            ),
                        ),
                    )
                } else {
                    None
                }
            },
            ChatEvent::Unknown(m) => {
                let s = chars_of(m.as_str());
                if let Some(u) = escaped_name(&s, Phrase::AlreadyHighest) {
                    if str_eq_ignore_ascii_case(player, u.as_str()) {
                        return Some(
                            SlashCommandResponse::Failure(
                                concat(ticked(u.as_str()), " is already the highest rank"),
                            ),
                        );
                    }
                }
                let own = is_message(m.as_str(), "You can only promote up to your own rank!");
                let master = match search_name(
                    &s,
                    Tail::Plain(Simple::WordBefore(Phrase::MasterNoPromote)),
                ) {
                    Some(u) => str_eq_ignore_ascii_case(player, u.as_str()),
                    None => false,
                };
                if own || master {
                    Some(
                        SlashCommandResponse::Failure(
                            str_to_string("I don't have permission to run that command"),
                        ),
                    )
                } else {
                    None
                }
            },
            ChatEvent::CommandResponse(r) => failure_for(player, r, true, false),
            _ => None,
        }
    }
}

// ---------------------------------------------------------------------------
// setrank
// ---------------------------------------------------------------------------

/// Sets a player's guild rank.
#[derive(Debug, Clone)]
pub struct SetRankCommand {
    /// The player to set the rank of.
    pub player: String,
    /// The guild rank to set the player to.
    pub rank: String,
}

/// How a server line that no event covers answers setting `player` to the
/// cleaned rank `rank`.
pub open spec fn setrank_unknown(player: Seq<char>, rank: Seq<char>, m: Seq<char>) -> Option<
    Outcome,
> {
    match crate::grammar::unknown_rank(m, 0) {
        Some(sp) => Some(Outcome::Failure("Couldn't find rank "@ + tick(cap(m, sp)))),
        None => if m == "They already have that rank!"@ {
            Some(Outcome::Failure(tick(player) + " already has rank "@ + tick(rank)))
        } else if m == "You can only demote up to your own rank!"@ || m
            == "You can only promote up to your own rank!"@ {
            Some(Outcome::Failure(no_permission_text()))
        } else {
            None
        },
    }
}

/// How an event answers setting `player` to the cleaned rank `rank`.
pub open spec fn setrank_outcome(player: Seq<char>, rank: Seq<char>, e: ChatEvent) -> Option<
    Outcome,
> {
    match e {
        ChatEvent::GuildEvent(GuildEvent::Promotion { member, old_rank, new_rank }) => if eq_ignore_case(
            player,
            member@,
        ) {
            Some(
                Outcome::Success(
                    rank_change_text(member@, " has been promoted from "@, old_rank@, new_rank@),
                ),
            )
        } else {
            None
        },
        ChatEvent::GuildEvent(GuildEvent::Demotion { member, old_rank, new_rank }) => if eq_ignore_case(
            player,
            member@,
        ) {
            Some(
                Outcome::Success(
                    rank_change_text(member@, " has been demoted from "@, old_rank@, new_rank@),
                ),
            )
        } else {
            None
        },
        ChatEvent::Unknown(m) => setrank_unknown(player, rank, m@),
        ChatEvent::CommandResponse(r) => response_failure(player, r, true, false),
        _ => None,
    }
}

impl RunCommand for SetRankCommand {
    type Response = SlashCommandResponse;

    /// The rank sent is the rank cleaned for chat; one with nothing left is
    /// refused.
    fn get_command(&self, ctx: &Context) -> (r: Result<MinecraftCommand, SlashCommandResponse>)
        ensures
            match r {
                Ok(c) => valid_ign(self.player@) && clean(self.rank@).len() > 0 && (
                c matches MinecraftCommand::SetRank(p, k) && p@ == self.player@ && k@ == clean(
                    self.rank@,
                )),
                Err(x) => if !valid_ign(self.player@) {
                    x matches SlashCommandResponse::Failure(t) && t@ == invalid_ign_text(
                        self.player@,
                    )
                } else {
                    clean(self.rank@).len() == 0 && (x matches SlashCommandResponse::Failure(t)
                        && t@ == tick(self.rank@) + " is not a valid guild rank"@)
                },
            },
    {
        if !is_valid_ign(self.player.as_str()) {
            return Err(invalid_ign(self.player.as_str()));
        }
        let rank = clean_string(self.rank.as_str());
        if rank.as_str().is_empty() {
            return Err(
                SlashCommandResponse::Failure(
                    concat(ticked(self.rank.as_str()), " is not a valid guild rank"),
                ),
            );
        }
        Ok(MinecraftCommand::SetRank(str_to_string(self.player.as_str()), rank))
    }

    fn check_event(&self, ctx: &Context, event: &RawChatEvent) -> (r: Option<SlashCommandResponse>)
        ensures
            outcome(r) == setrank_outcome(self.player@, clean(self.rank@), event.parsed()),
    {
        let event = event.as_chat_event();
        let player = self.player.as_str();
        match event {
            ChatEvent::GuildEvent(GuildEvent::Promotion { member, old_rank, new_rank }) => {
                if str_eq_ignore_ascii_case(player, member.as_str()) {
                    Some(
                        SlashCommandResponse::Success(
                            rank_change(
                                member.as_str(),
                                " has been promoted from ",
                                old_rank.as_str(),
                                new_rank.as_str(),
                            ),
                        ),
                    )
                } else {
                    None
                }
            },
            ChatEvent::GuildEvent(GuildEvent::Demotion { member, old_rank, new_rank }) => {
                if str_eq_ignore_ascii_case(player, member.as_str()) {
                    Some(
                        SlashCommandResponse::Success(
                            rank_change(
                                member.as_str(),
                                " has been demoted from ",
                                old_rank.as_str(),
                                new_rank.as_str(),
                            ),
                        ),
                    )
                } else {
                    None
                }
            },
            ChatEvent::Unknown(m) => {
                let s = chars_of(m.as_str());
                if let Some((a, b)) = crate::grammar::unknown_rank_exec(&s) {
                    let name = string_of(&s, a, b);
                    let t = str_to_string("Couldn't find rank ");
                    let x = ticked(name.as_str());
                    return Some(SlashCommandResponse::Failure(concat(t, x.as_str())));
                }
                if is_message(m.as_str(), "They already have that rank!") {
                    let rank = clean_string(self.rank.as_str());
                    let t = concat(ticked(player), " already has rank ");
                    let x = ticked(rank.as_str());
                    return Some(SlashCommandResponse::Failure(concat(t, x.as_str())));
                }
                if is_message(m.as_str(), "You can only demote up to your own rank!")
                    || is_message(m.as_str(), "You can only promote up to your own rank!") {
                    return Some(
                        SlashCommandResponse::Failure(
                            str_to_string("I don't have permission to run that command"),
                        ),
                    );
                }
                None
            },
            ChatEvent::CommandResponse(r) => failure_for(player, r, true, false),
            _ => None,
        }
    }
}

// ---------------------------------------------------------------------------
// unmute
// ---------------------------------------------------------------------------

/// Unmutes a player, or the guild chat when the player is `everyone`.
#[derive(Debug, Clone)]
pub struct UnmuteCommand {
    /// The player to unmute.
    pub player: String,
}

/// How an event answers an unmute of `player` run by the bot `bot`.
pub open spec fn unmute_outcome(player: Seq<char>, bot: Seq<char>, e: ChatEvent) -> Option<
    Outcome,
> {
    match e {
        ChatEvent::Moderation(Moderation::Unmute { member, by }) => if by@ == bot
            && eq_ignore_case(player, target_of(member)) {
            Some(
                Outcome::Success(
                    match member {
                        Some(m) => tick(m@) + " has been unmuted"@,
                        None => "`Guild Chat` has been unmuted"@,
                    },
                ),
            )
        } else {
            None
        },
        ChatEvent::Unknown(m) => if m@ == "This player is not muted!"@ {
            Some(Outcome::Failure(tick(player) + " is not muted"@))
        } else {
            None
        },
        ChatEvent::CommandResponse(r) => response_failure(player, r, true, false),
        _ => None,
    }
}

impl RunCommand for UnmuteCommand {
    type Response = SlashCommandResponse;

    fn get_command(&self, ctx: &Context) -> (r: Result<MinecraftCommand, SlashCommandResponse>)
        ensures
            checked_player(self.player@, r),
            r matches Ok(c) ==> c matches MinecraftCommand::Unmute(p) && p@ == self.player@,
    {
        if !is_valid_ign(self.player.as_str()) {
            return Err(invalid_ign(self.player.as_str()));
        }
        Ok(MinecraftCommand::Unmute(str_to_string(self.player.as_str())))
    }

    fn check_event(&self, ctx: &Context, event: &RawChatEvent) -> (r: Option<SlashCommandResponse>)
        ensures
            outcome(r) == unmute_outcome(self.player@, ctx.bot@, event.parsed()),
    {
        let event = event.as_chat_event();
        let player = self.player.as_str();
        match event {
            ChatEvent::Moderation(Moderation::Unmute { member, by }) => {
                if is_message(by.as_str(), ctx.bot.as_str()) && str_eq_ignore_ascii_case(
                    player,
                    target_exec(member),
                ) {
                    Some(
                        SlashCommandResponse::Success(
                            match member {
                                Some(m) => concat(ticked(m.as_str()), " has been unmuted"),
                                None => str_to_string("`Guild Chat` has been unmuted"),
                            },
                        ),
                    )
                } else {
                    None
                }
            },
            ChatEvent::Unknown(m) => {
                if is_message(m.as_str(), "This player is not muted!") {
                    Some(SlashCommandResponse::Failure(concat(ticked(player), " is not muted")))
                } else {
                    None
                }
            },
            ChatEvent::CommandResponse(r) => failure_for(player, r, true, false),
            _ => None,
        }
    }
}


// ---------------------------------------------------------------------------
// Laws of the answers
// ---------------------------------------------------------------------------

/// A promotion answers a promote only when it is of the promoted player,
/// ignoring ASCII case, naming the old rank first and the new rank last; a
/// promotion of anyone else, and any demotion, is no answer.
pub proof fn lemma_promote_answers(
    player: Seq<char>,
    member: String,
    old_rank: String,
    new_rank: String,
)
    ensures
        promote_outcome(
            player,
            ChatEvent::GuildEvent(GuildEvent::Promotion { member, old_rank, new_rank }),
        ) == (if eq_ignore_case(player, member@) {
            Some(
                Outcome::Success(
                    "`"@ + member@ + "`"@ + " has been promoted from "@ + "`"@ + old_rank@ + "`"@
                        + " to "@ + "`"@ + new_rank@ + "`"@,
                ),
            )
        } else {
            None
        }),
        promote_outcome(
            player,
            ChatEvent::GuildEvent(GuildEvent::Demotion { member, old_rank, new_rank }),
        ) is None,
{
    crate::guild::lemma_rank_change_text(member@, " has been promoted from "@, old_rank@, new_rank@);
}

/// Setting a rank is answered by a promotion or a demotion of that player
/// (ignoring ASCII case), each told as what it is; a rank change of anyone
/// else is no answer.
pub proof fn lemma_setrank_answers(
    player: Seq<char>,
    rank: Seq<char>,
    member: String,
    old_rank: String,
    new_rank: String,
)
    ensures
        setrank_outcome(
            player,
            rank,
            ChatEvent::GuildEvent(GuildEvent::Promotion { member, old_rank, new_rank }),
        ) == (if eq_ignore_case(player, member@) {
            Some(
                Outcome::Success(
                    "`"@ + member@ + "`"@ + " has been promoted from "@ + "`"@ + old_rank@ + "`"@
                        + " to "@ + "`"@ + new_rank@ + "`"@,
                ),
            )
        } else {
            None
        }),
        setrank_outcome(
            player,
            rank,
            ChatEvent::GuildEvent(GuildEvent::Demotion { member, old_rank, new_rank }),
        ) == (if eq_ignore_case(player, member@) {
            Some(
                Outcome::Success(
                    "`"@ + member@ + "`"@ + " has been demoted from "@ + "`"@ + old_rank@ + "`"@
                        + " to "@ + "`"@ + new_rank@ + "`"@,
                ),
            )
        } else {
            None
        }),
{
    crate::guild::lemma_rank_change_text(member@, " has been promoted from "@, old_rank@, new_rank@);
    crate::guild::lemma_rank_change_text(member@, " has been demoted from "@, old_rank@, new_rank@);
}

/// An unmute made by the bot answers an unmute of its target (a member, or
/// `everyone` for the guild chat), ignoring ASCII case; any other unmute is
/// no answer.
pub proof fn lemma_unmute_answers(player: Seq<char>, bot: Seq<char>, member: String, by: String)
    ensures
        unmute_outcome(
            player,
            bot,
            ChatEvent::Moderation(Moderation::Unmute { member: Some(member), by }),
        ) == (if by@ == bot && eq_ignore_case(player, member@) {
            Some(Outcome::Success("`"@ + member@ + "`"@ + " has been unmuted"@))
        } else {
            None
        }),
        unmute_outcome(
            player,
            bot,
            ChatEvent::Moderation(Moderation::Unmute { member: None, by }),
        ) == (if by@ == bot && eq_ignore_case(player, "everyone"@) {
            Some(Outcome::Success("`Guild Chat` has been unmuted"@))
        } else {
            None
        }),
{
    assert(tick(member@) + " has been unmuted"@ =~= "`"@ + member@ + "`"@ + " has been unmuted"@);
}

} // verus!
