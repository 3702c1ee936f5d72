//! The `/guild` slash commands: what they send to Minecraft and how they read
//! the server's answer.

use crate::chat::{cap, cap_exec, ranked_in};
use crate::commands::{
    failure_for, invalid_ign, invalid_ign_text, no_permission_text, outcome, push_decimal,
    response_failure, tick, ticked, decimal, Context, MinecraftCommand, Outcome, RunCommand,
    SlashCommandResponse, TimeUnit,
};
use crate::events::{ChatEvent, GuildEvent, Moderation, RawChatEvent, Response};
use crate::grammar::{
    lit_at, lit_at_exec, phrase, phrase_char_ok, rank_then, ranked, run_end, tail, search, search_exec, simple, simple_exec, unknown_rank,
    unknown_rank_exec, Phrase, Simple, Tail,
};
use crate::sanitizer::{clean, clean_rank, clean_string, is_valid_ign, rank_name, valid_ign};
use crate::text::{
    word_char, chars_of, concat, eq_ignore_case, eq_str, str_eq_ignore_ascii_case, str_to_string, string_of,
};
use vstd::prelude::*;

verus! {

// ---------------------------------------------------------------------------
// Reading the server's messages
// ---------------------------------------------------------------------------

/// `^HEADER(?:\[.+?\] )?` and a tail.
pub open spec fn after_header(m: Seq<char>, h: Seq<char>, t: Tail) -> Option<Seq<crate::grammar::Span>> {
    if lit_at(m, 0, h) {
        ranked(t, m, h.len() as int)
    } else {
        None
    }
}

/// The name captured after a header, if the line matches.
pub open spec fn name_after(m: Seq<char>, h: Seq<char>, t: Tail) -> Option<Seq<char>> {
    match after_header(m, h, t) {
        Some(c) => Some(cap(m, c[0])),
        None => None,
    }
}

/// The first capture after `h` and the tail.
fn name_after_exec(s: &Vec<char>, h: &str, t: Tail) -> (r: Option<String>)
    ensures
        match name_after(s@, h@, t) {
            Some(x) => r matches Some(y) && y@ == x,
            None => r is None,
        },
{
    if !lit_at_exec(s, 0, h) {
        return None;
    }
    let hl = h.unicode_len();
    match ranked_in(t, s, hl) {
        Some(c) => Some(cap_exec(s, &c, 0)),
        None => None,
    }
}

/// The first capture of the leftmost search for a tail.
pub(crate) fn search_name(s: &Vec<char>, t: Tail) -> (r: Option<String>)
    ensures
        match search(t, s@, 0) {
            Some(c) => r matches Some(y) && y@ == cap(s@, c[0]),
            None => r is None,
        },
{
    match search_exec(t, s) {
        Some(c) => {
            proof {
                lemma_search_within(t, s@, 0);
                crate::chat::lemma_spans_of_within(c@, s@.len() as int);
            }
            Some(cap_exec(s, &c, 0))
        },
        None => None,
    }
}

pub proof fn lemma_search_within(t: Tail, s: Seq<char>, i: int)
    ensures
        search(t, s, i) matches Some(c) ==> crate::grammar::spans_ok(c, s.len() as int) && c.len()
            == crate::grammar::tail_arity(t),
    decreases s.len() + 1 - i,
{
    if 0 <= i <= s.len() {
        if ranked(t, s, i) is Some {
            crate::grammar::lemma_ranked_within(t, s, i);
        } else {
            lemma_search_within(t, s, i + 1);
        }
    }
}

/// `x` equals the message `m` (an exact match of a fixed server message).
pub(crate) fn is_message(m: &str, x: &str) -> (b: bool)
    ensures
        b == (m@ == x@),
{
    let v = chars_of(m);
    let n = v.len();
    proof {
        assert(v@.subrange(0, n as int) =~= v@);
    }
    eq_str(&v, 0, n, x)
}

/// The text of a promotion or demotion.
pub open spec fn rank_change_text(
    member: Seq<char>,
    verb: Seq<char>,
    old_rank: Seq<char>,
    new_rank: Seq<char>,
) -> Seq<char> {
    tick(member) + verb + tick(old_rank) + " to "@ + tick(new_rank)
}

pub(crate) fn rank_change(member: &str, verb: &str, old_rank: &str, new_rank: &str) -> (t: String)
    ensures
        t@ == rank_change_text(member@, verb@, old_rank@, new_rank@),
{
    let t = concat(ticked(member), verb);
    let o = ticked(old_rank);
    let t = concat(t, o.as_str());
    let t = concat(t, " to ");
    let n = ticked(new_rank);
    concat(t, n.as_str())
}

// ---------------------------------------------------------------------------
// /guild promote
// ---------------------------------------------------------------------------

/// Promotes a player by one guild rank.
#[derive(Debug, Clone)]
pub struct PromoteCommand {
    /// The player to promote.
    pub player: String,
}

/// How a server line that no event covers answers a promotion of `player`.
pub open spec fn promote_unknown(player: Seq<char>, m: Seq<char>) -> Option<Outcome> {
    let first = match name_after(m, ""@, Tail::Plain(Simple::WordThen(Phrase::AlreadyHighest))) {
        Some(u) => if eq_ignore_case(player, u) {
            Some(Outcome::Failure(tick(u) + " is already the highest rank"@))
        } else {
            None
        },
        None => None,
    };
    if first is Some {
        first
    } else if m == "You can only promote up to your own rank!"@ || (search(
        Tail::Plain(Simple::WordBefore(Phrase::MasterNoPromote)),
        m,
        0,
    ) matches Some(c) && eq_ignore_case(player, cap(m, c[0]))) {
        Some(Outcome::Failure(no_permission_text()))
    } else {
        None
    }
}

/// How an event answers a promotion of `player`.
pub open spec fn promote_outcome(player: Seq<char>, e: ChatEvent) -> Option<Outcome> {
    match e {
        ChatEvent::GuildEvent(GuildEvent::Promotion { member, old_rank, new_rank }) => if eq_ignore_case(
            player,
            member@,
        ) {
            Some(
                Outcome::Success(
                    rank_change_text(member@, " has been promoted from "@, old_rank@, new_rank@),
                ),
            )
        } else {
            None
        },
        ChatEvent::Unknown(m) => promote_unknown(player, m@),
        ChatEvent::CommandResponse(r) => response_failure(player, r, true, true),
        _ => None,
    }
}

/// The command for a player, checked to be a valid IGN.
pub open spec fn checked_player(
    player: Seq<char>,
    r: Result<MinecraftCommand, SlashCommandResponse>,
) -> bool {
    match r {
        Ok(_) => valid_ign(player),
        Err(x) => !valid_ign(player) && (x matches SlashCommandResponse::Failure(t) && t@
            == invalid_ign_text(player)),
    }
}

impl RunCommand for PromoteCommand {
    type Response = SlashCommandResponse;

    fn get_command(&self, ctx: &Context) -> (r: Result<MinecraftCommand, SlashCommandResponse>)
        ensures
            checked_player(self.player@, r),
            r matches Ok(c) ==> c matches MinecraftCommand::Promote(p) && p@ == self.player@,
    {
        if !is_valid_ign(self.player.as_str()) {
            return Err(invalid_ign(self.player.as_str()));
        }
        Ok(MinecraftCommand::Promote(str_to_string(self.player.as_str())))
    }

    fn check_event(&self, ctx: &Context, event: &RawChatEvent) -> (r: Option<SlashCommandResponse>)
        ensures
            outcome(r) == promote_outcome(self.player@, event.parsed()),
    {
        let event = event.as_chat_event();
        let player = self.player.as_str();
        match event {
            ChatEvent::GuildEvent(GuildEvent::Promotion { member, old_rank, new_rank }) => {
                if str_eq_ignore_ascii_case(player, member.as_str()) {
                    Some(
                        SlashCommandResponse::Success(
                            rank_change(
                                member.as_str(),
                                " has been promoted from ",
                                old_rank.as_str(),
                                new_rank.as_str(),
                            ),
                        ),
                    )
                } else {
                    None
                }
            },
            ChatEvent::Unknown(m) => {
                let s = chars_of(m.as_str());
                proof {
                    reveal_strlit("");
                }
                if let Some(u) = name_after_exec(
                    &s,
                    "",
                    Tail::Plain(Simple::WordThen(Phrase::AlreadyHighest)),
                ) {
                    if str_eq_ignore_ascii_case(player, u.as_str()) {
                        return Some(
                            SlashCommandResponse::Failure(
                                concat(ticked(u.as_str()), " is already the highest rank"),
                            ),
                        );
                    }
                }
                let own = is_message(m.as_str(), "You can only promote up to your own rank!");
                let master = match search_name(
                    &s,
                    Tail::Plain(Simple::WordBefore(Phrase::MasterNoPromote)),
                ) {
                    Some(u) => str_eq_ignore_ascii_case(player, u.as_str()),
                    None => false,
                };
                if own || master {
                    Some(
                        SlashCommandResponse::Failure(
                            str_to_string("I don't have permission to run that command"),
                        ),
                    )
                } else {
                    None
                }
            },
            ChatEvent::CommandResponse(r) => failure_for(player, r, true, true),
            _ => None,
        }
    }
}

// ---------------------------------------------------------------------------
// /guild demote
// ---------------------------------------------------------------------------

/// Demotes a player by one guild rank.
#[derive(Debug, Clone)]
pub struct DemoteCommand {
    /// The player to demote.
    pub player: String,
}

/// How a server line that no event covers answers a demotion of `player`.
pub open spec fn demote_unknown(player: Seq<char>, m: Seq<char>) -> Option<Outcome> {
    let first = match name_after(m, ""@, Tail::Plain(Simple::WordThen(Phrase::AlreadyLowest))) {
        Some(u) => if eq_ignore_case(player, u) {
            Some(Outcome::Failure(tick(u) + " is already the lowest rank"@))
        } else {
            None
        },
        None => None,
    };
    if first is Some {
        first
    } else if m == "You can only demote up to your own rank!"@ || (search(
        Tail::Plain(Simple::WordBefore(Phrase::MasterNoDemote)),
        m,
        0,
    ) matches Some(c) && eq_ignore_case(player, cap(m, c[0]))) {
        Some(Outcome::Failure(no_permission_text()))
    } else {
        None
    }
}

/// How an event answers a demotion of `player`.
pub open spec fn demote_outcome(player: Seq<char>, e: ChatEvent) -> Option<Outcome> {
    match e {
        ChatEvent::GuildEvent(GuildEvent::Demotion { member, old_rank, new_rank }) => if eq_ignore_case(
            player,
            member@,
        ) {
            Some(
                Outcome::Success(
                    rank_change_text(member@, " has been demoted from "@, old_rank@, new_rank@),
                ),
            )
        } else {
            None
        },
        ChatEvent::Unknown(m) => demote_unknown(player, m@),
        ChatEvent::CommandResponse(r) => response_failure(player, r, true, false),
        _ => None,
    }
}

impl RunCommand for DemoteCommand {
    type Response = SlashCommandResponse;

    fn get_command(&self, ctx: &Context) -> (r: Result<MinecraftCommand, SlashCommandResponse>)
        ensures
            checked_player(self.player@, r),
            r matches Ok(c) ==> c matches MinecraftCommand::Demote(p) && p@ == self.player@,
    {
        if !is_valid_ign(self.player.as_str()) {
            return Err(invalid_ign(self.player.as_str()));
        }
        Ok(MinecraftCommand::Demote(str_to_string(self.player.as_str())))
    }

    fn check_event(&self, ctx: &Context, event: &RawChatEvent) -> (r: Option<SlashCommandResponse>)
        ensures
            outcome(r) == demote_outcome(self.player@, event.parsed()),
    {
        let event = event.as_chat_event();
        let player = self.player.as_str();
        match event {
            ChatEvent::GuildEvent(GuildEvent::Demotion { member, old_rank, new_rank }) => {
                if str_eq_ignore_ascii_case(player, member.as_str()) {
                    Some(
                        SlashCommandResponse::Success(
                            rank_change(
                                member.as_str(),
                                " has been demoted from ",
                                old_rank.as_str(),
                                new_rank.as_str(),
                            ),
                        ),
                    )
                } else {
                    None
                }
            },
            ChatEvent::Unknown(m) => {
                let s = chars_of(m.as_str());
                proof {
                    reveal_strlit("");
                }
                if let Some(u) = name_after_exec(
                    &s,
                    "",
                    Tail::Plain(Simple::WordThen(Phrase::AlreadyLowest)),
                ) {
                    if str_eq_ignore_ascii_case(player, u.as_str()) {
                        return Some(
                            SlashCommandResponse::Failure(
                                concat(ticked(u.as_str()), " is already the lowest rank"),
                            ),
                        );
                    }
                }
                let own = is_message(m.as_str(), "You can only demote up to your own rank!");
                let master = match search_name(
                    &s,
                    Tail::Plain(Simple::WordBefore(Phrase::MasterNoDemote)),
                ) {
                    Some(u) => str_eq_ignore_ascii_case(player, u.as_str()),
                    None => false,
                };
                if own || master {
                    Some(
                        SlashCommandResponse::Failure(
                            str_to_string("I don't have permission to run that command"),
                        ),
                    )
                } else {
                    None
                }
            },
            ChatEvent::CommandResponse(r) => failure_for(player, r, true, false),
            _ => None,
        }
    }
}

// ---------------------------------------------------------------------------
// /guild setrank
// ---------------------------------------------------------------------------

/// Sets a player's guild rank.
#[derive(Debug, Clone)]
pub struct SetRankCommand {
    /// The player to set the rank of.
    pub player: String,
    /// The guild rank to set the player to.
    pub rank: String,
}

/// How a server line that no event covers answers setting `player` to `rank`.
pub open spec fn setrank_unknown(player: Seq<char>, rank: Seq<char>, m: Seq<char>) -> Option<
    Outcome,
> {
    match unknown_rank(m, 0) {
        Some(sp) => Some(Outcome::Failure("Couldn't find rank "@ + tick(cap(m, sp)))),
        None => if m == "They already have that rank!"@ {
            Some(Outcome::Failure(tick(player) + " already has rank "@ + tick(rank)))
        } else if m == "You can only demote up to your own rank!"@ || m
            == "You can only promote up to your own rank!"@ {
            Some(Outcome::Failure(no_permission_text()))
        } else {
            None
        },
    }
}

/// How an event answers setting `player` to `rank`.
pub open spec fn setrank_outcome(player: Seq<char>, rank: Seq<char>, e: ChatEvent) -> Option<
    Outcome,
> {
    match e {
        ChatEvent::GuildEvent(GuildEvent::Promotion { member, old_rank, new_rank }) => if eq_ignore_case(
            player,
            member@,
        ) {
            Some(
                Outcome::Success(
                    rank_change_text(member@, " has been promoted from "@, old_rank@, new_rank@),
                ),
            )
        } else {
            None
        },
        ChatEvent::GuildEvent(GuildEvent::Demotion { member, old_rank, new_rank }) => if eq_ignore_case(
            player,
            member@,
        ) {
            Some(
                Outcome::Success(
                    rank_change_text(member@, " has been demoted from "@, old_rank@, new_rank@),
                ),
            )
        } else {
            None
        },
        ChatEvent::Unknown(m) => setrank_unknown(player, rank, m@),
        ChatEvent::CommandResponse(r) => response_failure(player, r, true, true),
        _ => None,
    }
}

impl RunCommand for SetRankCommand {
    type Response = SlashCommandResponse;

    /// The rank sent is the cleaned rank name; an empty one is refused.
    fn get_command(&self, ctx: &Context) -> (r: Result<MinecraftCommand, SlashCommandResponse>)
        ensures
            match r {
                Ok(c) => valid_ign(self.player@) && rank_name(self.rank@).len() > 0 && (
                c matches MinecraftCommand::SetRank(p, k) && p@ == self.player@ && k@ == rank_name(
                    self.rank@,
                )),
                Err(x) => if !valid_ign(self.player@) {
                    x matches SlashCommandResponse::Failure(t) && t@ == invalid_ign_text(
                        self.player@,
                    )
                } else {
                    rank_name(self.rank@).len() == 0 && (x matches SlashCommandResponse::Failure(t)
                        && t@ == tick(self.rank@) + " is not a valid guild rank"@)
                },
            },
    {
        if !is_valid_ign(self.player.as_str()) {
            return Err(invalid_ign(self.player.as_str()));
        }
        let rank = clean_rank(self.rank.as_str());
        if rank.as_str().is_empty() {
            return Err(
                SlashCommandResponse::Failure(
                    concat(ticked(self.rank.as_str()), " is not a valid guild rank"),
                ),
            );
        }
        Ok(MinecraftCommand::SetRank(str_to_string(self.player.as_str()), rank))
    }

    fn check_event(&self, ctx: &Context, event: &RawChatEvent) -> (r: Option<SlashCommandResponse>)
        ensures
            outcome(r) == setrank_outcome(self.player@, self.rank@, event.parsed()),
    {
        let event = event.as_chat_event();
        let player = self.player.as_str();
        match event {
            ChatEvent::GuildEvent(GuildEvent::Promotion { member, old_rank, new_rank }) => {
                if str_eq_ignore_ascii_case(player, member.as_str()) {
                    Some(
                        SlashCommandResponse::Success(
                            rank_change(
                                member.as_str(),
                                " has been promoted from ",
                                old_rank.as_str(),
                                new_rank.as_str(),
                            ),
                        ),
                    )
                } else {
                    None
                }
            },
            ChatEvent::GuildEvent(GuildEvent::Demotion { member, old_rank, new_rank }) => {
                if str_eq_ignore_ascii_case(player, member.as_str()) {
                    Some(
                        SlashCommandResponse::Success(
                            rank_change(
                                member.as_str(),
                                " has been demoted from ",
                                old_rank.as_str(),
                                new_rank.as_str(),
                            ),
                        ),
                    )
                } else {
                    None
                }
            },
            ChatEvent::Unknown(m) => {
                let s = chars_of(m.as_str());
                if let Some((a, b)) = unknown_rank_exec(&s) {
                    let name = string_of(&s, a, b);
                    let t = str_to_string("Couldn't find rank ");
                    let x = ticked(name.as_str());
                    return Some(SlashCommandResponse::Failure(concat(t, x.as_str())));
                }
                if is_message(m.as_str(), "They already have that rank!") {
                    let t = concat(ticked(player), " already has rank ");
                    let x = ticked(self.rank.as_str());
                    return Some(SlashCommandResponse::Failure(concat(t, x.as_str())));
                }
                if is_message(m.as_str(), "You can only demote up to your own rank!")
                    || is_message(m.as_str(), "You can only promote up to your own rank!") {
                    return Some(
                        SlashCommandResponse::Failure(
                            str_to_string("I don't have permission to run that command"),
                        ),
                    );
                }
                None
            },
            ChatEvent::CommandResponse(r) => failure_for(player, r, true, true),
            _ => None,
        }
    }
}

// ---------------------------------------------------------------------------
// /guild unmute
// ---------------------------------------------------------------------------

/// Unmutes a player, or the guild chat when the player is `everyone`.
#[derive(Debug, Clone)]
pub struct UnmuteCommand {
    /// The player to unmute.
    pub player: String,
}

/// The name a mute or unmute concerns: the member, or `everyone`.
pub open spec fn target_of(member: Option<String>) -> Seq<char> {
    match member {
        Some(m) => m@,
        None => "everyone"@,
    }
}

/// How an event answers an unmute of `player` run by the bot `bot`.
pub open spec fn unmute_outcome(player: Seq<char>, bot: Seq<char>, e: ChatEvent) -> Option<
    Outcome,
> {
    match e {
        ChatEvent::Moderation(Moderation::Unmute { member, by }) => if by@ == bot
            && eq_ignore_case(player, target_of(member)) {
            Some(
                Outcome::Success(
                    match member {
                        Some(m) => tick(m@) + " has been unmuted"@,
                        None => "`Guild Chat` has been unmuted"@,
                    },
                ),
            )
        } else {
            None
        },
        ChatEvent::Unknown(m) => if m@ == "This player is not muted!"@ {
            Some(Outcome::Failure(tick(player) + " is not muted"@))
        } else if m@ == "The guild is not muted!"@ && eq_ignore_case(player, "everyone"@) {
            Some(Outcome::Failure("`Guild Chat` is not muted"@))
        } else {
            None
        },
        ChatEvent::CommandResponse(r) => response_failure(player, r, true, true),
        _ => None,
    }
}

pub(crate) fn target_exec(member: &Option<String>) -> (t: &str)
    ensures
        t@ == target_of(*member),
{
    match member {
        Some(m) => m.as_str(),
        None => "everyone",
    }
}

impl RunCommand for UnmuteCommand {
    type Response = SlashCommandResponse;

    fn get_command(&self, ctx: &Context) -> (r: Result<MinecraftCommand, SlashCommandResponse>)
        ensures
            checked_player(self.player@, r),
            r matches Ok(c) ==> c matches MinecraftCommand::Unmute(p) && p@ == self.player@,
    {
        if !is_valid_ign(self.player.as_str()) {
            return Err(invalid_ign(self.player.as_str()));
        }
        Ok(MinecraftCommand::Unmute(str_to_string(self.player.as_str())))
    }

    fn check_event(&self, ctx: &Context, event: &RawChatEvent) -> (r: Option<SlashCommandResponse>)
        ensures
            outcome(r) == unmute_outcome(self.player@, ctx.bot@, event.parsed()),
    {
        let event = event.as_chat_event();
        let player = self.player.as_str();
        match event {
            ChatEvent::Moderation(Moderation::Unmute { member, by }) => {
                if is_message(by.as_str(), ctx.bot.as_str()) && str_eq_ignore_ascii_case(
                    player,
                    target_exec(member),
                ) {
                    Some(
                        SlashCommandResponse::Success(
                            match member {
                                Some(m) => concat(ticked(m.as_str()), " has been unmuted"),
                                None => str_to_string("`Guild Chat` has been unmuted"),
                            },
                        ),
                    )
                } else {
                    None
                }
            },
            ChatEvent::Unknown(m) => {
                if is_message(m.as_str(), "This player is not muted!") {
                    Some(SlashCommandResponse::Failure(concat(ticked(player), " is not muted")))
                } else if is_message(m.as_str(), "The guild is not muted!")
                    && str_eq_ignore_ascii_case(player, "everyone") {
                    Some(SlashCommandResponse::Failure(str_to_string("`Guild Chat` is not muted")))
                } else {
                    None
                }
            },
            ChatEvent::CommandResponse(r) => failure_for(player, r, true, true),
            _ => None,
        }
    }
}

// ---------------------------------------------------------------------------
// /guild mute
// ---------------------------------------------------------------------------

/// Mutes a player, or the guild chat when the player is `everyone`.
#[derive(Debug, Clone)]
pub struct MuteCommand {
    /// The player to mute.
    pub player: String,
    /// How long to mute the player for.
    pub duration: i64,
    /// The unit of the duration.
    pub unit: TimeUnit,
}

/// The decimal text of a signed number.
pub open spec fn signed_decimal(n: int) -> Seq<char> {
    if n < 0 {
        "-"@ + decimal((-n) as nat)
    } else {
        decimal(n as nat)
    }
}

/// How an event answers a mute of `player` run by the bot `bot`.
pub open spec fn mute_outcome(player: Seq<char>, bot: Seq<char>, e: ChatEvent) -> Option<Outcome> {
    match e {
        ChatEvent::Moderation(Moderation::Mute { member, by, time }) => if by@ == bot
            && eq_ignore_case(player, target_of(member)) {
            Some(
                Outcome::Success(
                    match member {
                        Some(m) => tick(m@) + " has been muted for "@ + time@,
                        None => "`Guild Chat` has been muted for "@ + time@,
                    },
                ),
            )
        } else {
            None
        },
        ChatEvent::Unknown(m) => if m@ == "This player is already muted!"@ {
            Some(Outcome::Failure(tick(player) + " is already muted"@))
        } else if m@ == "You cannot mute a guild member with a higher guild rank!"@ {
            Some(Outcome::Failure(no_permission_text()))
        } else if m@ == "You cannot mute someone for more than one month"@ || m@
            == "You cannot mute someone for less than a minute"@ {
            Some(Outcome::Failure("Invalid duration"@))
        } else if m@ == "Invalid time format! Try 7d, 1d, 6h, 1h"@ {
            Some(Outcome::Failure("Invalid time format"@))
        } else {
            None
        },
        ChatEvent::CommandResponse(r) => response_failure(player, r, true, false),
        _ => None,
    }
}

/// Appends the decimal text of a signed number.
fn push_signed(s: &mut String, n: i64)
    ensures
        final(s)@ == old(s)@ + signed_decimal(n as int),
{
    if n < 0 {
        s.push('-');
        let m: u64 = if n == i64::MIN {
            9223372036854775808u64
        } else {
            (-n) as u64
        };
        assert(m as int == -(n as int));
        let ghost mid = s@;
        push_decimal(s, m);
        proof {
            reveal_strlit("-");
            assert(mid == old(s)@.push('-'));
            assert(s@ =~= old(s)@ + signed_decimal(n as int));
        }
    } else {
        push_decimal(s, n as u64);
    }
}

impl RunCommand for MuteCommand {
    type Response = SlashCommandResponse;

    /// A duration that does not fit in a byte is refused.
    fn get_command(&self, ctx: &Context) -> (r: Result<MinecraftCommand, SlashCommandResponse>)
        ensures
            match r {
                Ok(c) => valid_ign(self.player@) && 0 <= self.duration <= 255 && (
                c matches MinecraftCommand::Mute(p, d, u) && p@ == self.player@ && d
                    == self.duration && u == self.unit),
                Err(x) => if !valid_ign(self.player@) {
                    x matches SlashCommandResponse::Failure(t) && t@ == invalid_ign_text(
                        self.player@,
                    )
                } else {
                    !(0 <= self.duration <= 255) && (x matches SlashCommandResponse::Failure(t)
                        && t@ == tick(signed_decimal(self.duration as int))
                        + " is not a valid mute duration"@)
                },
            },
    {
        if !is_valid_ign(self.player.as_str()) {
            return Err(invalid_ign(self.player.as_str()));
        }
        if self.duration < 0 || self.duration > 255 {
            let mut t = str_to_string("`");
            push_signed(&mut t, self.duration);
            let t = concat(t, "`");
            let t = concat(t, " is not a valid mute duration");
            return Err(SlashCommandResponse::Failure(t));
        }
        Ok(MinecraftCommand::Mute(str_to_string(self.player.as_str()), self.duration as u8, self.unit))
    }

    fn check_event(&self, ctx: &Context, event: &RawChatEvent) -> (r: Option<SlashCommandResponse>)
        ensures
            outcome(r) == mute_outcome(self.player@, ctx.bot@, event.parsed()),
    {
        let event = event.as_chat_event();
        let player = self.player.as_str();
        match event {
            ChatEvent::Moderation(Moderation::Mute { member, by, time }) => {
                if is_message(by.as_str(), ctx.bot.as_str()) && str_eq_ignore_ascii_case(
                    player,
                    target_exec(member),
                ) {
                    let t = match member {
                        Some(m) => concat(ticked(m.as_str()), " has been muted for "),
                        None => str_to_string("`Guild Chat` has been muted for "),
                    };
                    Some(SlashCommandResponse::Success(concat(t, time.as_str())))
                } else {
                    None
                }
            },
            ChatEvent::Unknown(m) => {
                let m = m.as_str();
                if is_message(m, "This player is already muted!") {
                    Some(SlashCommandResponse::Failure(concat(ticked(player), " is already muted")))
                } else if is_message(m, "You cannot mute a guild member with a higher guild rank!") {
                    Some(
                        SlashCommandResponse::Failure(
                            str_to_string("I don't have permission to run that command"),
                        ),
                    )
                } else if is_message(m, "You cannot mute someone for more than one month")
                    || is_message(m, "You cannot mute someone for less than a minute") {
                    Some(SlashCommandResponse::Failure(str_to_string("Invalid duration")))
                } else if is_message(m, "Invalid time format! Try 7d, 1d, 6h, 1h") {
                    Some(SlashCommandResponse::Failure(str_to_string("Invalid time format")))
                } else {
                    None
                }
            },
            ChatEvent::CommandResponse(r) => failure_for(player, r, true, false),
            _ => None,
        }
    }
}

// ---------------------------------------------------------------------------
// /guild kick
// ---------------------------------------------------------------------------

/// Kicks a player from the guild.
#[derive(Debug, Clone)]
pub struct KickCommand {
    /// The player to kick.
    pub player: String,
    /// The reason for kicking the player.
    pub reason: Option<String>,
}

/// The reason sent with a kick: the cleaned reason, or a default when none
/// is left.
pub open spec fn kick_reason(reason: Option<String>) -> Seq<char> {
    match reason {
        Some(r) => if clean(r@).len() > 0 {
            clean(r@)
        } else {
            "No reason provided"@
        },
        None => "No reason provided"@,
    }
}

/// How an event answers a kick of `player` run by the bot `bot`.
pub open spec fn kick_outcome(player: Seq<char>, bot: Seq<char>, e: ChatEvent) -> Option<Outcome> {
    match e {
        ChatEvent::GuildEvent(GuildEvent::Kick { member, by }) => if eq_ignore_case(
            player,
            member@,
        ) && by@ == bot {
            Some(Outcome::Success(tick(member@) + " has been kicked from the guild"@))
        } else {
            None
        },
        ChatEvent::Unknown(m) => if m@ == "You do not have permission to kick people from the guild!"@
            || m@ == "You cannot kick yourself from the guild!"@ {
            Some(Outcome::Failure(no_permission_text()))
        } else {
            None
        },
        ChatEvent::CommandResponse(r) => response_failure(player, r, true, true),
        _ => None,
    }
}

impl RunCommand for KickCommand {
    type Response = SlashCommandResponse;

    fn get_command(&self, ctx: &Context) -> (r: Result<MinecraftCommand, SlashCommandResponse>)
        ensures
            checked_player(self.player@, r),
            r matches Ok(c) ==> c matches MinecraftCommand::Kick(p, why) && p@ == self.player@
                && why@ == kick_reason(self.reason),
    {
        if !is_valid_ign(self.player.as_str()) {
            return Err(invalid_ign(self.player.as_str()));
        }
        let reason = match &self.reason {
            Some(r) => {
                let c = clean_string(r.as_str());
                if c.as_str().is_empty() {
                    str_to_string("No reason provided")
                } else {
                    c
                }
            },
            None => str_to_string("No reason provided"),
        };
        Ok(MinecraftCommand::Kick(str_to_string(self.player.as_str()), reason))
    }

    fn check_event(&self, ctx: &Context, event: &RawChatEvent) -> (r: Option<SlashCommandResponse>)
        ensures
            outcome(r) == kick_outcome(self.player@, ctx.bot@, event.parsed()),
    {
        let event = event.as_chat_event();
        let player = self.player.as_str();
        match event {
            ChatEvent::GuildEvent(GuildEvent::Kick { member, by }) => {
                if str_eq_ignore_ascii_case(player, member.as_str()) && is_message(
                    by.as_str(),
                    ctx.bot.as_str(),
                ) {
                    Some(
                        SlashCommandResponse::Success(
                            concat(ticked(member.as_str()), " has been kicked from the guild"),
                        ),
                    )
                } else {
                    None
                }
            },
            ChatEvent::Unknown(m) => {
                if is_message(m.as_str(), "You do not have permission to kick people from the guild!")
                    || is_message(m.as_str(), "You cannot kick yourself from the guild!") {
                    Some(
                        SlashCommandResponse::Failure(
                            str_to_string("I don't have permission to run that command"),
                        ),
                    )
                } else {
                    None
                }
            },
            ChatEvent::CommandResponse(r) => failure_for(player, r, true, true),
            _ => None,
        }
    }
}

// ---------------------------------------------------------------------------
// /guild invite
// ---------------------------------------------------------------------------

/// Invites a player to the guild.
#[derive(Debug, Clone)]
pub struct InviteCommand {
    /// The player to invite.
    pub player: String,
}

/// `Some(answer)` when `name` is the invited player.
pub open spec fn for_player(player: Seq<char>, name: Option<Seq<char>>, o: Outcome) -> Option<
    Outcome,
> {
    match name {
        Some(u) => if eq_ignore_case(player, u) {
            Some(o)
        } else {
            None
        },
        None => None,
    }
}

pub open spec fn invited_name(m: Seq<char>) -> Option<Seq<char>> {
    name_after(m, "You invited "@, Tail::Plain(Simple::WordThen(Phrase::InvitedToGuild)))
}

pub open spec fn offline_invited_name(m: Seq<char>) -> Option<Seq<char>> {
    name_after(m, "You sent an offline invite to "@, Tail::Plain(Simple::WordThen(Phrase::OfflineInvite)))
}

pub open spec fn in_other_guild_name(m: Seq<char>) -> Option<Seq<char>> {
    name_after(m, ""@, Tail::Plain(Simple::WordThen(Phrase::InAnotherGuild)))
}

pub open spec fn already_invited_name(m: Seq<char>) -> Option<Seq<char>> {
    name_after(m, "You've already invited "@, Tail::Plain(Simple::WordThen(Phrase::AlreadyInvited)))
}

pub open spec fn in_guild_name(m: Seq<char>) -> Option<Seq<char>> {
    name_after(m, ""@, Tail::Plain(Simple::WordThen(Phrase::InYourGuild)))
}

/// The name a message is about, or the empty text.
pub open spec fn or_empty(n: Option<Seq<char>>) -> Seq<char> {
    match n {
        Some(u) => u,
        None => Seq::empty(),
    }
}

/// How a server line that no event covers answers an invite of `player`.
pub open spec fn invite_unknown(player: Seq<char>, m: Seq<char>) -> Option<Outcome> {
    let a = for_player(player, invited_name(m), Outcome::Success(tick(or_empty(invited_name(m)))
        + " has been invited to the guild"@));
    let b = for_player(player, offline_invited_name(m), Outcome::Success(tick(or_empty(offline_invited_name(m)))
        + " has been offline invited to the guild"@));
    let c = for_player(player, in_other_guild_name(m), Outcome::Failure(tick(or_empty(in_other_guild_name(m)))
        + " is already in another guild"@));
    let d = for_player(player, already_invited_name(m), Outcome::Failure(tick(or_empty(already_invited_name(m)))
        + " has already been invited to the guild"@));
    let e = for_player(player, in_guild_name(m), Outcome::Failure(tick(or_empty(in_guild_name(m)))
        + " is already in the guild"@));
    if a is Some {
        a
    } else if b is Some {
        b
    } else if c is Some {
        c
    } else if d is Some {
        d
    } else if e is Some {
        e
    } else if m == "Your guild is full!"@ {
        Some(Outcome::Failure("The guild is full"@))
    } else if m == "You cannot invite this player to your guild!"@ {
        Some(Outcome::Failure("`{player}` has guild invites disabled"@))
    } else if m == "You do not have permission to invite players!"@ {
        Some(Outcome::Failure(no_permission_text()))
    } else {
        None
    }
}

/// How an event answers an invite of `player`.
pub open spec fn invite_outcome(player: Seq<char>, e: ChatEvent) -> Option<Outcome> {
    match e {
        ChatEvent::Unknown(m) => invite_unknown(player, m@),
        ChatEvent::CommandResponse(r) => response_failure(player, r, false, true),
        _ => None,
    }
}

/// A line that starts with `You ` and a word whose second letter is not `s`
/// says no player is already in a guild.
proof fn lemma_you_line_not_in_guild(m: Seq<char>)
    requires
        !word_char(' '),
        m.len() > 5,
        m[0] == 'Y',
        m[1] == 'o',
        m[2] == 'u',
        m[3] == ' ',
        m[5] != 's',
    ensures
        in_other_guild_name(m) is None,
        in_guild_name(m) is None,
{
    reveal_strlit("");
    reveal_strlit(" is already in another guild!");
    reveal_strlit(" is already in your guild!");
    assert(lit_at(m, 0, ""@));
    crate::grammar::lemma_run_end(m, 0);
    let e = run_end(m, 0);
    if e > 3 {
        assert(word_char(m[3]));
    }
    let other = Tail::Plain(Simple::WordThen(Phrase::InAnotherGuild));
    let ours = Tail::Plain(Simple::WordThen(Phrase::InYourGuild));
    crate::chat::lemma_no_rank(other, m, 0, 4);
    crate::chat::lemma_no_rank(ours, m, 0, 4);
    assert(ranked(other, m, 0) == simple(Simple::WordThen(Phrase::InAnotherGuild), m, 0));
    assert(ranked(ours, m, 0) == simple(Simple::WordThen(Phrase::InYourGuild), m, 0));
    if 0 < e {
        if lit_at(m, e, phrase(Phrase::InAnotherGuild)) {
            assert(phrase_char_ok(m[e + 0], phrase(Phrase::InAnotherGuild)[0]));
            assert(phrase_char_ok(m[e + 2], phrase(Phrase::InAnotherGuild)[2]));
        }
        if lit_at(m, e, phrase(Phrase::InYourGuild)) {
            assert(phrase_char_ok(m[e + 0], phrase(Phrase::InYourGuild)[0]));
            assert(phrase_char_ok(m[e + 2], phrase(Phrase::InYourGuild)[2]));
        }
    }
}

/// An online invite line that names another player gives no answer to an
/// invite (`\w` rejecting the space, as it does).
pub proof fn lemma_invite_of_other_player(player: Seq<char>, m: Seq<char>)
    requires
        !word_char(' '),
        invited_name(m) matches Some(u) && !eq_ignore_case(player, u),
    ensures
        invite_unknown(player, m) is None,
{
    reveal_strlit("You invited ");
    reveal_strlit("You sent an offline invite to ");
    reveal_strlit("You've already invited ");
    reveal_strlit("Your guild is full!");
    reveal_strlit("You cannot invite this player to your guild!");
    reveal_strlit("You do not have permission to invite players!");
    let h = "You invited "@;
    assert(lit_at(m, 0, h));
    assert forall|k: int| 0 <= k < 12 implies m[k] == h[k] by {
        assert(phrase_char_ok(m[0 + k], h[k]));
    }
    if lit_at(m, 0, "You sent an offline invite to "@) {
        assert(phrase_char_ok(m[0int + 4], "You sent an offline invite to "@[4]));
    }
    if lit_at(m, 0, "You've already invited "@) {
        assert(phrase_char_ok(m[0int + 3], "You've already invited "@[3]));
    }
    lemma_you_line_not_in_guild(m);
    assert(m != "Your guild is full!"@) by {
        if m == "Your guild is full!"@ {
            assert(m[3] == "Your guild is full!"@[3]);
        }
    }
    assert(m != "You cannot invite this player to your guild!"@) by {
        if m == "You cannot invite this player to your guild!"@ {
            assert(m[4] == "You cannot invite this player to your guild!"@[4]);
        }
    }
    assert(m != "You do not have permission to invite players!"@) by {
        if m == "You do not have permission to invite players!"@ {
            assert(m[4] == "You do not have permission to invite players!"@[4]);
        }
    }
}

/// An offline invite line that names another player gives no answer to an
/// invite either.
pub proof fn lemma_offline_invite_of_other_player(player: Seq<char>, m: Seq<char>)
    requires
        !word_char(' '),
        offline_invited_name(m) matches Some(u) && !eq_ignore_case(player, u),
    ensures
        invite_unknown(player, m) is None,
{
    reveal_strlit("You invited ");
    reveal_strlit("You sent an offline invite to ");
    reveal_strlit("You've already invited ");
    reveal_strlit("Your guild is full!");
    reveal_strlit("You cannot invite this player to your guild!");
    reveal_strlit("You do not have permission to invite players!");
    let h = "You sent an offline invite to "@;
    assert(lit_at(m, 0, h));
    assert forall|k: int| 0 <= k < 30 implies m[k] == h[k] by {
        assert(phrase_char_ok(m[0 + k], h[k]));
    }
    if lit_at(m, 0, "You invited "@) {
        assert(phrase_char_ok(m[0int + 4], "You invited "@[4]));
    }
    if lit_at(m, 0, "You've already invited "@) {
        assert(phrase_char_ok(m[0int + 3], "You've already invited "@[3]));
    }
    lemma_you_line_not_in_guild(m);
    assert(m != "Your guild is full!"@) by {
        if m == "Your guild is full!"@ {
            assert(m[3] == "Your guild is full!"@[3]);
        }
    }
    assert(m != "You cannot invite this player to your guild!"@) by {
        if m == "You cannot invite this player to your guild!"@ {
            assert(m[4] == "You cannot invite this player to your guild!"@[4]);
        }
    }
    assert(m != "You do not have permission to invite players!"@) by {
        if m == "You do not have permission to invite players!"@ {
            assert(m[4] == "You do not have permission to invite players!"@[4]);
        }
    }
}

/// A rank as the server prints it before a name: nothing, or `[`, text
/// without `]` or a newline, `]` and a space.
pub open spec fn plain_rank(r: Seq<char>) -> bool {
    ||| r.len() == 0
    ||| {
        &&& r.len() >= 4
        &&& r[0] == '['
        &&& r[r.len() - 2] == ']'
        &&& r[r.len() - 1] == ' '
        &&& forall|k: int| 1 <= k < r.len() - 2 ==> #[trigger] r[k] != ']' && r[k] != '\n'
    }
}

/// The lazy rank before a name is the whole printed rank: no shorter rank
/// end is found first.
proof fn lemma_lazy_rank(t: Tail, s: Seq<char>, b: int, kend: int, k: int)
    requires
        0 <= b,
        b + 4 <= k <= kend <= s.len(),
        s[b] == '[',
        s[kend - 2] == ']',
        s[kend - 1] == ' ',
        forall|i: int| b + 1 <= i < kend - 2 ==> #[trigger] s[i] != ']' && s[i] != '\n',
        tail(t, s, kend) is Some,
    ensures
        rank_then(t, s, b, k) == tail(t, s, kend),
    decreases kend - k,
{
    if k < kend {
        assert(s[k - 2] != ']');
        lemma_lazy_rank(t, s, b, kend, k + 1);
    } else {
        assert(crate::grammar::rank_end(s, b, k));
    }
}

/// A line made of a header, a printed rank, a plain name and the rest of a
/// phrase reads back that name.
proof fn lemma_name_line(h: Seq<char>, rank: Seq<char>, u: Seq<char>, rest: Seq<char>, p: Phrase)
    requires
        forall|k: int| 0 <= k < h.len() ==> #[trigger] h[k] != '\0',
        plain_rank(rank),
        crate::chat::plain_name(u),
        rest.len() == phrase(p).len(),
        rest.len() > 0,
        !word_char(rest[0]),
        forall|k: int| 0 <= k < rest.len() ==> phrase_char_ok(#[trigger] rest[k], phrase(p)[k]),
    ensures
        name_after(h + rank + u + rest, h, Tail::Plain(Simple::WordThen(p))) == Some(u),
{
    let s = h + rank + u + rest;
    let t = Tail::Plain(Simple::WordThen(p));
    let x = Simple::WordThen(p);
    let b = h.len() as int;
    let kend = b + rank.len();
    let e = kend + u.len();
    assert forall|k: int| 0 <= k < h.len() implies phrase_char_ok(#[trigger] s[0 + k], h[k]) by {
        assert(s[k] == h[k]);
    }
    assert(lit_at(s, 0, h));
    assert forall|k: int| kend <= k < e implies word_char(#[trigger] s[k]) by {
        assert(s[k] == u[k - kend]);
    }
    assert(s[e] == rest[0]);
    crate::grammar::lemma_run_end(s, kend);
    if run_end(s, kend) > e {
        assert(word_char(s[e]));
    }
    if run_end(s, kend) < e {
        let r = run_end(s, kend);
        assert(word_char(s[r]));
    }
    assert(run_end(s, kend) == e);
    assert forall|k: int| 0 <= k < phrase(p).len() implies phrase_char_ok(#[trigger] s[e + k], phrase(p)[k]) by {
        assert(s[e + k] == rest[k]);
    }
    assert(lit_at(s, e, phrase(p)));
    assert(simple(x, s, kend) == Some(seq![(kend, e)]));
    assert(tail(t, s, kend) is Some);
    if rank.len() == 0 {
        assert(s[b] == u[0]);
        crate::chat::lemma_no_rank(t, s, b, b + 4);
    } else {
        assert(s[b] == rank[0]);
        assert(s[kend - 2] == rank[rank.len() - 2]);
        assert(s[kend - 1] == rank[rank.len() - 1]);
        assert forall|i: int| b + 1 <= i < kend - 2 implies #[trigger] s[i] != ']' && s[i] != '\n' by {
            assert(s[i] == rank[i - b]);
        }
        lemma_lazy_rank(t, s, b, kend, b + 4);
    }
    assert(cap(s, (kend, e)) =~= u);
}

/// The online invite line the server prints for a player.
pub open spec fn invite_line(rank: Seq<char>, u: Seq<char>) -> Seq<char> {
    "You invited "@ + rank + u + " to your guild. They have 5 minutes to accept."@
}

/// The offline invite line the server prints for a player.
pub open spec fn offline_invite_line(rank: Seq<char>, u: Seq<char>) -> Seq<char> {
    "You sent an offline invite to "@ + rank + u
        + "! They will have 5 minutes to accept once they come online!"@
}

/// The end of the online invite line matches its phrase.
proof fn lemma_invite_rest()
    ensures
        ({
            let rest = " to your guild. They have 5 minutes to accept."@;
            &&& rest.len() == phrase(Phrase::InvitedToGuild).len()
            &&& rest.len() > 0
            &&& rest[0] == ' '
            &&& forall|k: int|
                0 <= k < rest.len() ==> phrase_char_ok(
                    #[trigger] rest[k],
                    phrase(Phrase::InvitedToGuild)[k],
                )
        }),
{
    reveal_strlit(" to your guild. They have 5 minutes to accept.");
    reveal_strlit(" to your guild\0 They have 5 minutes to accept.");
}

/// The online invite line for a player answers an invite of that player,
/// ignoring ASCII case, with success, and an invite of anyone else with
/// nothing.
pub proof fn lemma_invite_line_answer(player: Seq<char>, rank: Seq<char>, u: Seq<char>)
    requires
        plain_rank(rank),
        crate::chat::plain_name(u),
        !word_char(' '),
    ensures
        invite_unknown(player, invite_line(rank, u)) == (if eq_ignore_case(player, u) {
            Some(Outcome::Success(tick(u) + " has been invited to the guild"@))
        } else {
            None
        }),
{
    reveal_strlit("You invited ");
    let h = "You invited "@;
    let rest = " to your guild. They have 5 minutes to accept."@;
    assert(h + rank + u + rest == invite_line(rank, u));
    lemma_invite_rest();
    lemma_name_line(h, rank, u, rest, Phrase::InvitedToGuild);
    if !eq_ignore_case(player, u) {
        lemma_invite_of_other_player(player, invite_line(rank, u));
    }
}

/// The offline invite line for a player answers an invite of that player,
/// ignoring ASCII case, with success, and an invite of anyone else with
/// nothing.
pub proof fn lemma_offline_invite_line_answer(player: Seq<char>, rank: Seq<char>, u: Seq<char>)
    requires
        plain_rank(rank),
        crate::chat::plain_name(u),
        !word_char(' '),
        !word_char('!'),
    ensures
        invite_unknown(player, offline_invite_line(rank, u)) == (if eq_ignore_case(player, u) {
            Some(Outcome::Success(tick(u) + " has been offline invited to the guild"@))
        } else {
            None
        }),
{
    reveal_strlit("You sent an offline invite to ");
    reveal_strlit("! They will have 5 minutes to accept once they come online!");
    reveal_strlit("You invited ");
    let h = "You sent an offline invite to "@;
    let rest = "! They will have 5 minutes to accept once they come online!"@;
    let m = offline_invite_line(rank, u);
    assert(h + rank + u + rest == m);
    lemma_name_line(h, rank, u, rest, Phrase::OfflineInvite);
    assert(m[4] == 's');
    if lit_at(m, 0, "You invited "@) {
        assert(phrase_char_ok(m[0int + 4], "You invited "@[4]));
    }
    if !eq_ignore_case(player, u) {
        lemma_offline_invite_of_other_player(player, m);
    }
}

/// An invite succeeds only on an online or offline invite line that names
/// the invited player, ignoring ASCII case.
pub proof fn lemma_invite_success_names_player(player: Seq<char>, e: ChatEvent)
    ensures
        invite_outcome(player, e) matches Some(Outcome::Success(_)) ==> (e matches ChatEvent::Unknown(
            m,
        ) && ((invited_name(m@) matches Some(u) && eq_ignore_case(player, u)) || (
        offline_invited_name(m@) matches Some(u) && eq_ignore_case(player, u)))),
{
}

/// The answer for a name matched in a message, if it is the player's.
fn answer_for(player: &str, name: Option<String>, success: bool, text: &str) -> (r: Option<
    SlashCommandResponse,
>)
    ensures
        outcome(r) == for_player(
            player@,
            match name {
                Some(u) => Some(u@),
                None => None,
            },
            if success {
                Outcome::Success(tick(
                    match name {
                        Some(u) => u@,
                        None => Seq::empty(),
                    },
                ) + text@)
            } else {
                Outcome::Failure(tick(
                    match name {
                        Some(u) => u@,
                        None => Seq::empty(),
                    },
                ) + text@)
            },
        ),
{
    match name {
        Some(u) => {
            if str_eq_ignore_ascii_case(player, u.as_str()) {
                let t = concat(ticked(u.as_str()), text);
                if success {
                    Some(SlashCommandResponse::Success(t))
                } else {
                    Some(SlashCommandResponse::Failure(t))
                }
            } else {
                None
            }
        },
        None => None,
    }
}

impl RunCommand for InviteCommand {
    type Response = SlashCommandResponse;

    fn get_command(&self, ctx: &Context) -> (r: Result<MinecraftCommand, SlashCommandResponse>)
        ensures
            checked_player(self.player@, r),
            r matches Ok(c) ==> c matches MinecraftCommand::Invite(p) && p@ == self.player@,
    {
        if !is_valid_ign(self.player.as_str()) {
            return Err(invalid_ign(self.player.as_str()));
        }
        Ok(MinecraftCommand::Invite(str_to_string(self.player.as_str())))
    }

    fn check_event(&self, ctx: &Context, event: &RawChatEvent) -> (r: Option<SlashCommandResponse>)
        ensures
            outcome(r) == invite_outcome(self.player@, event.parsed()),
    {
        let event = event.as_chat_event();
        let player = self.player.as_str();
        match event {
            ChatEvent::Unknown(m) => {
                let s = chars_of(m.as_str());
                proof {
                    reveal_strlit("");
                }
                let a = answer_for(
                    player,
                    name_after_exec(
                        &s,
                        "You invited ",
                        Tail::Plain(Simple::WordThen(Phrase::InvitedToGuild)),
                    ),
                    true,
                    " has been invited to the guild",
                );
                if a.is_some() {
                    return a;
                }
                let b = answer_for(
                    player,
                    name_after_exec(
                        &s,
                        "You sent an offline invite to ",
                        Tail::Plain(Simple::WordThen(Phrase::OfflineInvite)),
                    ),
                    true,
                    " has been offline invited to the guild",
                );
                if b.is_some() {
                    return b;
                }
                let c = answer_for(
                    player,
                    name_after_exec(&s, "", Tail::Plain(Simple::WordThen(Phrase::InAnotherGuild))),
                    false,
                    " is already in another guild",
                );
                if c.is_some() {
                    return c;
                }
                let d = answer_for(
                    player,
                    name_after_exec(
                        &s,
                        "You've already invited ",
                        Tail::Plain(Simple::WordThen(Phrase::AlreadyInvited)),
                    ),
                    false,
                    " has already been invited to the guild",
                );
                if d.is_some() {
                    return d;
                }
                let e = answer_for(
                    player,
                    name_after_exec(&s, "", Tail::Plain(Simple::WordThen(Phrase::InYourGuild))),
                    false,
                    " is already in the guild",
                );
                if e.is_some() {
                    return e;
                }
                if is_message(m.as_str(), "Your guild is full!") {
                    return Some(SlashCommandResponse::Failure(str_to_string("The guild is full")));
                }
                if is_message(m.as_str(), "You cannot invite this player to your guild!") {
                    return Some(
                        SlashCommandResponse::Failure(
                            str_to_string("`{player}` has guild invites disabled"),
                        ),
                    );
                }
                if is_message(m.as_str(), "You do not have permission to invite players!") {
                    return Some(
                        SlashCommandResponse::Failure(
                            str_to_string("I don't have permission to run that command"),
                        ),
                    );
                }
                None
            },
            ChatEvent::CommandResponse(r) => failure_for(player, r, false, true),
            _ => None,
        }
    }
}

// ---------------------------------------------------------------------------
// /guild
// ---------------------------------------------------------------------------

/// The `/guild` command and its sub-commands.
#[derive(Debug, Clone)]
pub enum GuildCommand {
    Mute(MuteCommand),
    Unmute(UnmuteCommand),
    Invite(InviteCommand),
    Kick(KickCommand),
    Promote(PromoteCommand),
    Demote(DemoteCommand),
    SetRank(SetRankCommand),
}

/// How an event answers a guild command.
pub open spec fn guild_outcome(c: GuildCommand, bot: Seq<char>, e: ChatEvent) -> Option<Outcome> {
    match c {
        GuildCommand::Mute(x) => mute_outcome(x.player@, bot, e),
        GuildCommand::Unmute(x) => unmute_outcome(x.player@, bot, e),
        GuildCommand::Invite(x) => invite_outcome(x.player@, e),
        GuildCommand::Kick(x) => kick_outcome(x.player@, bot, e),
        GuildCommand::Promote(x) => promote_outcome(x.player@, e),
        GuildCommand::Demote(x) => demote_outcome(x.player@, e),
        GuildCommand::SetRank(x) => setrank_outcome(x.player@, x.rank@, e),
    }
}

/// The player a guild command targets.
pub open spec fn guild_player(c: GuildCommand) -> Seq<char> {
    match c {
        GuildCommand::Mute(x) => x.player@,
        GuildCommand::Unmute(x) => x.player@,
        GuildCommand::Invite(x) => x.player@,
        GuildCommand::Kick(x) => x.player@,
        GuildCommand::Promote(x) => x.player@,
        GuildCommand::Demote(x) => x.player@,
        GuildCommand::SetRank(x) => x.player@,
    }
}

/// What a guild command sends, or why it refuses: a player that is no valid
/// IGN is always refused, and each sub-command sends its own command.
pub open spec fn guild_command_result(
    c: GuildCommand,
    r: Result<MinecraftCommand, SlashCommandResponse>,
) -> bool {
    &&& !valid_ign(guild_player(c)) ==> (r matches Err(SlashCommandResponse::Failure(t))
                && t@ == invalid_ign_text(guild_player(c)))
    &&& r is Ok ==> valid_ign(guild_player(c))
    &&& match c {
                GuildCommand::Promote(x) => r matches Ok(c) ==> c matches MinecraftCommand::Promote(
                    p,
                ) && p@ == x.player@,
                GuildCommand::Demote(x) => r matches Ok(c) ==> c matches MinecraftCommand::Demote(
                    p,
                ) && p@ == x.player@,
                GuildCommand::Invite(x) => r matches Ok(c) ==> c matches MinecraftCommand::Invite(
                    p,
                ) && p@ == x.player@,
                GuildCommand::Unmute(x) => r matches Ok(c) ==> c matches MinecraftCommand::Unmute(
                    p,
                ) && p@ == x.player@,
                GuildCommand::Kick(x) => r matches Ok(c) ==> c matches MinecraftCommand::Kick(
                    p,
                    why,
                ) && p@ == x.player@ && why@ == kick_reason(x.reason),
                GuildCommand::Mute(x) => (r matches Ok(c) ==> c matches MinecraftCommand::Mute(
                    p,
                    d,
                    u,
                ) && p@ == x.player@ && d == x.duration && u == x.unit) && (valid_ign(x.player@)
                    ==> (r is Ok <==> 0 <= x.duration <= 255)),
                GuildCommand::SetRank(x) => (r matches Ok(c) ==> c matches MinecraftCommand::SetRank(
                    p,
                    k,
                ) && p@ == x.player@ && k@ == rank_name(x.rank@)) && (valid_ign(x.player@) ==> (
                r is Ok <==> rank_name(x.rank@).len() > 0)),
            }
}

impl RunCommand for GuildCommand {
    type Response = SlashCommandResponse;

    /// The sub-command's own command; a player that is no valid IGN is
    /// always refused.
    fn get_command(&self, ctx: &Context) -> (r: Result<MinecraftCommand, SlashCommandResponse>)
        ensures
            guild_command_result(*self, r),
    {
        match self {
            GuildCommand::Mute(x) => x.get_command(ctx),
            GuildCommand::Unmute(x) => x.get_command(ctx),
            GuildCommand::Invite(x) => x.get_command(ctx),
            GuildCommand::Kick(x) => x.get_command(ctx),
            GuildCommand::Promote(x) => x.get_command(ctx),
            GuildCommand::Demote(x) => x.get_command(ctx),
            GuildCommand::SetRank(x) => x.get_command(ctx),
        }
    }

    fn check_event(&self, ctx: &Context, event: &RawChatEvent) -> (r: Option<SlashCommandResponse>)
        ensures
            outcome(r) == guild_outcome(*self, ctx.bot@, event.parsed()),
    {
        match self {
            GuildCommand::Mute(x) => x.check_event(ctx, event),
            GuildCommand::Unmute(x) => x.check_event(ctx, event),
            GuildCommand::Invite(x) => x.check_event(ctx, event),
            GuildCommand::Kick(x) => x.check_event(ctx, event),
            GuildCommand::Promote(x) => x.check_event(ctx, event),
            GuildCommand::Demote(x) => x.check_event(ctx, event),
            GuildCommand::SetRank(x) => x.check_event(ctx, event),
        }
    }
}


// ---------------------------------------------------------------------------
// Laws of the answers
// ---------------------------------------------------------------------------

/// The text of a rank change: the member, the verb, the old rank, ` to ` and
/// the new rank, each name in backticks.
pub(crate) proof fn lemma_rank_change_text(m: Seq<char>, v: Seq<char>, o: Seq<char>, n: Seq<char>)
    ensures
        rank_change_text(m, v, o, n) == "`"@ + m + "`"@ + v + "`"@ + o + "`"@ + " to "@ + "`"@ + n
            + "`"@,
{
    assert(rank_change_text(m, v, o, n) =~= "`"@ + m + "`"@ + v + "`"@ + o + "`"@ + " to "@ + "`"@
        + n + "`"@);
}

/// A promotion answers a promote only when it is of the promoted player,
/// ignoring ASCII case: then it names the member, the old rank first and the
/// new rank last.  A promotion of anyone else, and any demotion, is no answer.
pub proof fn lemma_promote_answers(
    player: Seq<char>,
    member: String,
    old_rank: String,
    new_rank: String,
)
    ensures
        promote_outcome(
            player,
            ChatEvent::GuildEvent(GuildEvent::Promotion { member, old_rank, new_rank }),
        ) == (if eq_ignore_case(player, member@) {
            Some(
                Outcome::Success(
                    "`"@ + member@ + "`"@ + " has been promoted from "@ + "`"@ + old_rank@ + "`"@
                        + " to "@ + "`"@ + new_rank@ + "`"@,
                ),
            )
        } else {
            None
        }),
        promote_outcome(
            player,
            ChatEvent::GuildEvent(GuildEvent::Demotion { member, old_rank, new_rank }),
        ) is None,
{
    lemma_rank_change_text(member@, " has been promoted from "@, old_rank@, new_rank@);
}

/// A demotion answers a demote only when it is of the demoted player,
/// ignoring ASCII case: then it names the member, the old rank first and the
/// new rank last.  A demotion of anyone else, and any promotion, is no answer.
pub proof fn lemma_demote_answers(
    player: Seq<char>,
    member: String,
    old_rank: String,
    new_rank: String,
)
    ensures
        demote_outcome(
            player,
            ChatEvent::GuildEvent(GuildEvent::Demotion { member, old_rank, new_rank }),
        ) == (if eq_ignore_case(player, member@) {
            Some(
                Outcome::Success(
                    "`"@ + member@ + "`"@ + " has been demoted from "@ + "`"@ + old_rank@ + "`"@
                        + " to "@ + "`"@ + new_rank@ + "`"@,
                ),
            )
        } else {
            None
        }),
        demote_outcome(
            player,
            ChatEvent::GuildEvent(GuildEvent::Promotion { member, old_rank, new_rank }),
        ) is None,
{
    lemma_rank_change_text(member@, " has been demoted from "@, old_rank@, new_rank@);
}

/// Setting a rank is answered by a promotion or a demotion of that player
/// (ignoring ASCII case), each told as what it is; a rank change of anyone
/// else is no answer.
pub proof fn lemma_setrank_answers(
    player: Seq<char>,
    rank: Seq<char>,
    member: String,
    old_rank: String,
    new_rank: String,
)
    ensures
        setrank_outcome(
            player,
            rank,
            ChatEvent::GuildEvent(GuildEvent::Promotion { member, old_rank, new_rank }),
        ) == (if eq_ignore_case(player, member@) {
            Some(
                Outcome::Success(
                    "`"@ + member@ + "`"@ + " has been promoted from "@ + "`"@ + old_rank@ + "`"@
                        + " to "@ + "`"@ + new_rank@ + "`"@,
                ),
            )
        } else {
            None
        }),
        setrank_outcome(
            player,
            rank,
            ChatEvent::GuildEvent(GuildEvent::Demotion { member, old_rank, new_rank }),
        ) == (if eq_ignore_case(player, member@) {
            Some(
                Outcome::Success(
                    "`"@ + member@ + "`"@ + " has been demoted from "@ + "`"@ + old_rank@ + "`"@
                        + " to "@ + "`"@ + new_rank@ + "`"@,
                ),
            )
        } else {
            None
        }),
{
    lemma_rank_change_text(member@, " has been promoted from "@, old_rank@, new_rank@);
    lemma_rank_change_text(member@, " has been demoted from "@, old_rank@, new_rank@);
}

/// A mute made by the bot answers a mute of its target, ignoring ASCII case:
/// a member mute answers a mute of that member, and a guild-chat mute answers
/// a mute of `everyone`.  A mute made by anyone else, or of another target,
/// is no answer.
pub proof fn lemma_mute_answers(
    player: Seq<char>,
    bot: Seq<char>,
    member: String,
    by: String,
    time: String,
)
    ensures
        mute_outcome(
            player,
            bot,
            ChatEvent::Moderation(Moderation::Mute { member: Some(member), by, time }),
        ) == (if by@ == bot && eq_ignore_case(player, member@) {
            Some(Outcome::Success("`"@ + member@ + "`"@ + " has been muted for "@ + time@))
        } else {
            None
        }),
        mute_outcome(
            player,
            bot,
            ChatEvent::Moderation(Moderation::Mute { member: None, by, time }),
        ) == (if by@ == bot && eq_ignore_case(player, "everyone"@) {
            Some(Outcome::Success("`Guild Chat` has been muted for "@ + time@))
        } else {
            None
        }),
{
    assert(tick(member@) =~= "`"@ + member@ + "`"@);
}

/// An unmute made by the bot answers an unmute of its target, ignoring ASCII
/// case, in the same way; anything else of that kind is no answer.
pub proof fn lemma_unmute_answers(player: Seq<char>, bot: Seq<char>, member: String, by: String)
    ensures
        unmute_outcome(
            player,
            bot,
            ChatEvent::Moderation(Moderation::Unmute { member: Some(member), by }),
        ) == (if by@ == bot && eq_ignore_case(player, member@) {
            Some(Outcome::Success("`"@ + member@ + "`"@ + " has been unmuted"@))
        } else {
            None
        }),
        unmute_outcome(
            player,
            bot,
            ChatEvent::Moderation(Moderation::Unmute { member: None, by }),
        ) == (if by@ == bot && eq_ignore_case(player, "everyone"@) {
            Some(Outcome::Success("`Guild Chat` has been unmuted"@))
        } else {
            None
        }),
{
    assert(tick(member@) =~= "`"@ + member@ + "`"@);
}

/// A kick by the bot answers a kick of that member, ignoring ASCII case; a
/// kick of anyone else, or by anyone else, is no answer.
pub proof fn lemma_kick_answers(player: Seq<char>, bot: Seq<char>, member: String, by: String)
    ensures
        kick_outcome(player, bot, ChatEvent::GuildEvent(GuildEvent::Kick { member, by })) == (if eq_ignore_case(
            player,
            member@,
        ) && by@ == bot {
            Some(Outcome::Success("`"@ + member@ + "`"@ + " has been kicked from the guild"@))
        } else {
            None
        }),
{
    assert(tick(member@) =~= "`"@ + member@ + "`"@);
}

/// The server refusing for lack of permission fails every command with the
/// same text, and a player that was not found fails a command about that
/// player (ignoring ASCII case) and no other.
pub proof fn lemma_refusals_answer(player: Seq<char>, bot: Seq<char>, rank: Seq<char>, u: String)
    ensures
        promote_outcome(player, ChatEvent::CommandResponse(Response::NoPermission)) == Some(
            Outcome::Failure("I don't have permission to run that command"@),
        ),
        demote_outcome(player, ChatEvent::CommandResponse(Response::NoPermission)) == Some(
            Outcome::Failure("I don't have permission to run that command"@),
        ),
        setrank_outcome(player, rank, ChatEvent::CommandResponse(Response::NoPermission)) == Some(
            Outcome::Failure("I don't have permission to run that command"@),
        ),
        mute_outcome(player, bot, ChatEvent::CommandResponse(Response::NoPermission)) == Some(
            Outcome::Failure("I don't have permission to run that command"@),
        ),
        unmute_outcome(player, bot, ChatEvent::CommandResponse(Response::NoPermission)) == Some(
            Outcome::Failure("I don't have permission to run that command"@),
        ),
        kick_outcome(player, bot, ChatEvent::CommandResponse(Response::NoPermission)) == Some(
            Outcome::Failure("I don't have permission to run that command"@),
        ),
        invite_outcome(player, ChatEvent::CommandResponse(Response::NoPermission)) == Some(
            Outcome::Failure("I don't have permission to run that command"@),
        ),
        promote_outcome(player, ChatEvent::CommandResponse(Response::PlayerNotFound(u))) == (if eq_ignore_case(
            player,
            u@,
        ) {
            Some(Outcome::Failure("Could not find player "@ + "`"@ + u@ + "`"@))
        } else {
            None
        }),
{
    assert("Could not find player "@ + tick(u@) =~= "Could not find player "@ + "`"@ + u@ + "`"@);
}


/// The server's refusals of a mute, an unmute or a kick fail the command
/// with their own texts, whoever the player is.
pub proof fn lemma_moderation_refusals(player: Seq<char>, bot: Seq<char>, t: String)
    ensures
        t@ == "This player is already muted!"@ ==> mute_outcome(player, bot, ChatEvent::Unknown(t))
            == Some(Outcome::Failure("`"@ + player + "`"@ + " is already muted"@)),
        t@ == "You cannot mute a guild member with a higher guild rank!"@ ==> mute_outcome(
            player,
            bot,
            ChatEvent::Unknown(t),
        ) == Some(Outcome::Failure("I don't have permission to run that command"@)),
        (t@ == "You cannot mute someone for more than one month"@ || t@
            == "You cannot mute someone for less than a minute"@) ==> mute_outcome(
            player,
            bot,
            ChatEvent::Unknown(t),
        ) == Some(Outcome::Failure("Invalid duration"@)),
        t@ == "Invalid time format! Try 7d, 1d, 6h, 1h"@ ==> mute_outcome(
            player,
            bot,
            ChatEvent::Unknown(t),
        ) == Some(Outcome::Failure("Invalid time format"@)),
        t@ == "This player is not muted!"@ ==> unmute_outcome(player, bot, ChatEvent::Unknown(t))
            == Some(Outcome::Failure("`"@ + player + "`"@ + " is not muted"@)),
        (t@ == "You do not have permission to kick people from the guild!"@ || t@
            == "You cannot kick yourself from the guild!"@) ==> kick_outcome(
            player,
            bot,
            ChatEvent::Unknown(t),
        ) == Some(Outcome::Failure("I don't have permission to run that command"@)),
{
    reveal_strlit("This player is already muted!");
    reveal_strlit("You cannot mute a guild member with a higher guild rank!");
    reveal_strlit("You cannot mute someone for more than one month");
    reveal_strlit("You cannot mute someone for less than a minute");
    reveal_strlit("Invalid time format! Try 7d, 1d, 6h, 1h");
    let a = "This player is already muted!"@;
    let b = "You cannot mute a guild member with a higher guild rank!"@;
    let c = "You cannot mute someone for more than one month"@;
    let d = "You cannot mute someone for less than a minute"@;
    assert(a[0] != b[0]);
    assert(a[0] != c[0]);
    assert(a[0] != d[0]);
    assert(b.len() != c.len());
    assert(b.len() != d.len());
    assert(tick(player) + " is already muted"@ =~= "`"@ + player + "`"@ + " is already muted"@);
    assert(tick(player) + " is not muted"@ =~= "`"@ + player + "`"@ + " is not muted"@);
}


/// A kick gives the cleaned reason, or `No reason provided` when there is
/// none or nothing is left of it after cleaning; a player name that is no
/// valid IGN is refused before anything is sent, saying so.
pub proof fn lemma_kick_reason_and_refusal(r: String, player: Seq<char>)
    ensures
        kick_reason(None) == "No reason provided"@,
        kick_reason(Some(r)) == (if clean(r@).len() > 0 {
            clean(r@)
        } else {
            "No reason provided"@
        }),
        invalid_ign_text(player) == "`"@ + player + "`"@ + " is not a valid IGN"@,
{
    assert(invalid_ign_text(player) =~= "`"@ + player + "`"@ + " is not a valid IGN"@);
}

} // verus!
