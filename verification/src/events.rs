//! Minecraft chat lines as events that command feedback is checked against.

use crate::chat::{cap, cap_exec, handle, parse_line, ranked_in, simple_in, Chat, Event, FromMinecraft};
use crate::grammar::{
    lemma_run_end, lit_at, lit_at_exec, phrase, phrase_char_ok, ranked, run_end, simple, tail, Phrase,
    Simple, Span, Tail,
};
use crate::text::{
    chars_of, eq_str, first_solid, last_solid, lemma_last_solid, string_of, trim, trim_bounds,
    white_space, word_char,
};
use vstd::prelude::*;

verus! {

/// A reply of the Hypixel server to a command.
#[derive(Debug, Clone, PartialEq, Eq)]
pub enum Response {
    /// The named player is not in the guild.
    PlayerNotInGuild(String),
    /// No player has the given name.
    PlayerNotFound(String),
    /// The bot may not run the command.
    NoPermission,
    /// The bot is not in a guild.
    BotNotInGuild,
    /// The command is disabled on the server.
    CommandDisabled,
    /// The server does not know the command.
    UnknownCommand,
}

/// A change to the guild's members.
#[derive(Debug, Clone, PartialEq, Eq)]
pub enum GuildEvent {
    Join(String),
    Leave(String),
    Kick { member: String, by: String },
    Promotion { member: String, old_rank: String, new_rank: String },
    Demotion { member: String, old_rank: String, new_rank: String },
}

/// A mute or unmute; `member` is `None` when it concerns the whole guild chat.
#[derive(Debug, Clone, PartialEq, Eq)]
pub enum Moderation {
    Mute { member: Option<String>, by: String, time: String },
    Unmute { member: Option<String>, by: String },
}

/// A Minecraft chat line, classified.
#[derive(Debug, Clone, PartialEq, Eq)]
pub enum ChatEvent {
    /// A guild or officer chat message.
    Message { author: String, content: String, chat: Chat },
    /// A guild member logged in (`online`) or out.
    Toggle { member: String, online: bool },
    GuildEvent(GuildEvent),
    Moderation(Moderation),
    CommandResponse(Response),
    /// Any other line.
    Unknown(String),
}

/// The messages by which the server refuses a command for lack of permission.
pub open spec fn no_permission_message(s: Seq<char>) -> bool {
    ||| s == "You must be the Guild Master to use that command!"@
    ||| s == "You do not have permission to use this command!"@
    ||| s == "I'm sorry, but you do not have permission to perform this command. Please contact the server administrators if you believe that this is in error."@
    ||| s == "Your guild rank does not have permission to use this!"@
}

/// The messages by which the server rejects an unknown command.
pub open spec fn unknown_command_message(s: Seq<char>) -> bool {
    ||| s == "Unknown command. Type \"/help\" for help."@
    ||| s == "Unknown or incomplete command, see below for error"@
}

/// `Can't find a player by the name of '(\w+)'$`, anchored at the start.
pub open spec fn player_not_found_line(s: Seq<char>) -> Option<Seq<Span>> {
    let h = "Can't find a player by the name of '"@;
    if lit_at(s, 0, h) {
        crate::grammar::simple(Simple::WordThen(Phrase::Quote), s, h.len() as int)
    } else {
        None
    }
}

/// `^(?:\[.+?\] )?(\w+) is not in your guild!$`
pub open spec fn not_in_guild_line(s: Seq<char>) -> Option<Seq<Span>> {
    ranked(Tail::Plain(Simple::WordThen(Phrase::NotInYourGuild)), s, 0)
}

/// A line of one or more dashes, as the server prints below many replies.
pub open spec fn dash_line(s: Seq<char>) -> bool {
    &&& s.len() > 0
    &&& forall|k: int| 0 <= k < s.len() ==> #[trigger] s[k] == '-'
}

/// `s[i]` is a newline after which only a dash line follows.
pub open spec fn separator_at(s: Seq<char>, i: int) -> bool {
    &&& 0 <= i < s.len()
    &&& s[i] == '\n'
    &&& dash_line(s.subrange(i + 1, s.len() as int))
}

/// The text of a server message without the dash line that may close it.
pub open spec fn body(s: Seq<char>) -> Seq<char> {
    if exists|i: int| separator_at(s, i) {
        s.subrange(0, choose|i: int| separator_at(s, i))
    } else {
        s
    }
}

/// `e` is the event the message `s` is classified as: its body decides.
pub open spec fn classified(s: Seq<char>, e: ChatEvent) -> bool {
    classified_line(body(s), e)
}

/// `e` is the event the line `s` is classified as.
pub open spec fn classified_line(s: Seq<char>, e: ChatEvent) -> bool {
    match parse_line(s) {
        Some(Event::Message(a, c, chat)) => e matches ChatEvent::Message { author, content, chat: ch }
            && author@ == a && content@ == c && ch == chat,
        Some(Event::Login(m)) => e matches ChatEvent::Toggle { member, online } && member@ == m
            && online,
        Some(Event::Logout(m)) => e matches ChatEvent::Toggle { member, online } && member@ == m
            && !online,
        Some(Event::Join(m)) => e matches ChatEvent::GuildEvent(GuildEvent::Join(x)) && x@ == m,
        Some(Event::Leave(m)) => e matches ChatEvent::GuildEvent(GuildEvent::Leave(x)) && x@ == m,
        Some(Event::Kick(m, b)) => e matches ChatEvent::GuildEvent(GuildEvent::Kick { member, by })
            && member@ == m && by@ == b,
        Some(Event::Promotion(m, o, n)) => e matches ChatEvent::GuildEvent(
            GuildEvent::Promotion { member, old_rank, new_rank },
        ) && member@ == m && old_rank@ == o && new_rank@ == n,
        Some(Event::Demotion(m, o, n)) => e matches ChatEvent::GuildEvent(
            GuildEvent::Demotion { member, old_rank, new_rank },
        ) && member@ == m && old_rank@ == o && new_rank@ == n,
        Some(Event::Mute(m, b, t)) => e matches ChatEvent::Moderation(
            Moderation::Mute { member: Some(x), by, time },
        ) && x@ == m && by@ == b && time@ == t,
        Some(Event::GuildMute(b, t)) => e matches ChatEvent::Moderation(
            Moderation::Mute { member: None, by, time },
        ) && by@ == b && time@ == t,
        Some(Event::Unmute(m, b)) => e matches ChatEvent::Moderation(
            Moderation::Unmute { member: Some(x), by },
        ) && x@ == m && by@ == b,
        Some(Event::GuildUnmute(b)) => e matches ChatEvent::Moderation(
            Moderation::Unmute { member: None, by },
        ) && by@ == b,
        _ => if let Some(c) = not_in_guild_line(s) {
            e matches ChatEvent::CommandResponse(Response::PlayerNotInGuild(x)) && x@ == cap(s, c[0])
        } else if let Some(c) = player_not_found_line(s) {
            e matches ChatEvent::CommandResponse(Response::PlayerNotFound(x)) && x@ == cap(s, c[0])
        } else if no_permission_message(trim(s)) {
            e == ChatEvent::CommandResponse(Response::NoPermission)
        } else if s == "You must be in a guild to use this command!"@ {
            e == ChatEvent::CommandResponse(Response::BotNotInGuild)
        } else if s == "This command is currently disabled."@ {
            e == ChatEvent::CommandResponse(Response::CommandDisabled)
        } else if unknown_command_message(s) {
            e == ChatEvent::CommandResponse(Response::UnknownCommand)
        } else {
            e matches ChatEvent::Unknown(x) && x@ == s
        },
    }
}

/// A reply followed by a closing dash line is read as the reply alone.
pub proof fn lemma_closing_dash_line(s: Seq<char>, d: Seq<char>, e: ChatEvent)
    requires
        dash_line(d),
    ensures
        body(s + "\n"@ + d) == s,
        classified(s + "\n"@ + d, e) == classified_line(s, e),
{
    reveal_strlit("\n");
    let t = s + "\n"@ + d;
    let i = s.len() as int;
    let n = t.len() as int;
    assert(t.subrange(i + 1, n) =~= d);
    assert(separator_at(t, i));
    let c = choose|c: int| separator_at(t, c);
    if c > i {
        assert(t[c] == d[c - i - 1]);
    } else if c < i {
        assert(t.subrange(c + 1, n)[i - c - 1] == t[i]);
    }
    assert(t.subrange(0, i) =~= s);
}

// ---------------------------------------------------------------------------
// Laws of the classification
// ---------------------------------------------------------------------------

/// After a first word that ends at the first space `p`, no phrase whose
/// second character differs from `s[p + 1]` follows the word.
proof fn lemma_first_word_then(s: Seq<char>, p: int, ph: Seq<char>)
    requires
        !word_char(' '),
        0 < p,
        p + 1 < s.len(),
        forall|k: int| 0 <= k < p ==> #[trigger] s[k] != ' ',
        s[p] == ' ',
        ph.len() >= 2,
        ph[0] == ' ',
        ph[1] != s[p + 1],
        ph[1] != '\0',
    ensures
        !(0 < run_end(s, 0) && lit_at(s, run_end(s, 0), ph)),
{
    lemma_run_end(s, 0);
    let e = run_end(s, 0);
    if e > p {
        assert(word_char(s[p]));
    }
    if 0 < e && lit_at(s, e, ph) {
        assert(phrase_char_ok(s[e + 0], ph[0]));
        if e == p {
            assert(phrase_char_ok(s[e + 1], ph[1]));
        }
    }
}

/// A line whose first word ends at its first space `p` and is followed by
/// none of the letters that start the event phrases (`j`, `l`, `w`, `h`,
/// `i`), which starts with no chat header or `[`, and which ends in no dash,
/// is no chat payload and no player-named reply.
proof fn lemma_not_an_event(s: Seq<char>, p: int)
    requires
        !word_char(' '),
        0 < p,
        p + 1 < s.len(),
        forall|k: int| 0 <= k < p ==> #[trigger] s[k] != ' ',
        s[p] == ' ',
        s[p + 1] != 'j' && s[p + 1] != 'l' && s[p + 1] != 'w' && s[p + 1] != 'h' && s[p + 1] != 'i',
        s[0] != '[' && s[0] != 'G' && s[0] != 'O' && s[0] != 'C',
        s[s.len() - 1] != '-',
    ensures
        parse_line(s) is None,
        not_in_guild_line(s) is None,
        player_not_found_line(s) is None,
{
    reveal_strlit("Guild > ");
    reveal_strlit("Officer > ");
    reveal_strlit("Can't find a player by the name of '");
    reveal_strlit(" joined the guild!");
    reveal_strlit(" left the guild!");
    reveal_strlit(" was kicked from the guild by ");
    reveal_strlit(" was promoted from ");
    reveal_strlit(" was demoted from ");
    reveal_strlit(" has muted ");
    reveal_strlit(" has unmuted ");
    reveal_strlit(" has muted the guild chat for ");
    reveal_strlit(" has unmuted the guild chat!");
    reveal_strlit(" is not in your guild!");
    if lit_at(s, 0, "Guild > "@) {
        assert(phrase_char_ok(s[0int + 0], "Guild > "@[0]));
    }
    if lit_at(s, 0, "Officer > "@) {
        assert(phrase_char_ok(s[0int + 0], "Officer > "@[0]));
    }
    if lit_at(s, 0, "Can't find a player by the name of '"@) {
        assert(phrase_char_ok(s[0int + 0], "Can't find a player by the name of '"@[0]));
    }
    lemma_first_word_then(s, p, phrase(Phrase::JoinedGuild));
    lemma_first_word_then(s, p, phrase(Phrase::LeftGuild));
    lemma_first_word_then(s, p, phrase(Phrase::KickedBy));
    lemma_first_word_then(s, p, phrase(Phrase::PromotedFrom));
    lemma_first_word_then(s, p, phrase(Phrase::DemotedFrom));
    lemma_first_word_then(s, p, phrase(Phrase::HasMuted));
    lemma_first_word_then(s, p, phrase(Phrase::HasUnmuted));
    lemma_first_word_then(s, p, phrase(Phrase::GuildChatMutedFor));
    lemma_first_word_then(s, p, phrase(Phrase::GuildChatUnmuted));
    lemma_first_word_then(s, p, phrase(Phrase::NotInYourGuild));
    crate::chat::lemma_no_rank(Tail::Plain(Simple::WordThen(Phrase::JoinedGuild)), s, 0, 4);
    crate::chat::lemma_no_rank(Tail::Plain(Simple::WordThen(Phrase::LeftGuild)), s, 0, 4);
    crate::chat::lemma_no_rank(Tail::Ranked(Phrase::KickedBy), s, 0, 4);
    crate::chat::lemma_no_rank(Tail::Plain(Simple::FromTo(Phrase::PromotedFrom)), s, 0, 4);
    crate::chat::lemma_no_rank(Tail::Plain(Simple::FromTo(Phrase::DemotedFrom)), s, 0, 4);
    crate::chat::lemma_no_rank(Tail::Ranked(Phrase::HasMuted), s, 0, 4);
    crate::chat::lemma_no_rank(Tail::Ranked(Phrase::HasUnmuted), s, 0, 4);
    crate::chat::lemma_no_rank(
        Tail::Plain(Simple::WordPhraseWord(Phrase::GuildChatMutedFor)),
        s,
        0,
        4,
    );
    crate::chat::lemma_no_rank(Tail::Plain(Simple::WordThen(Phrase::GuildChatUnmuted)), s, 0, 4);
    crate::chat::lemma_no_rank(Tail::Plain(Simple::WordThen(Phrase::NotInYourGuild)), s, 0, 4);
    if crate::chat::separator_line(s) {
        let i = choose|i: int|
            0 <= i && i + 1 < s.len() && #[trigger] s[i] == '&' && forall|k: int|
                i < k < s.len() ==> #[trigger] s[k] == '-';
        assert(s[s.len() - 1] == '-');
    }
}

/// A message followed by white space only is its own body, and trims to the
/// message, when the message starts and ends with no white space or dash.
proof fn lemma_padded_message(m: Seq<char>, w: Seq<char>)
    requires
        m.len() > 0,
        !white_space(m[0]),
        !white_space(m[m.len() - 1]),
        m[m.len() - 1] != '-',
        forall|k: int| 0 <= k < w.len() ==> white_space(#[trigger] w[k]),
    ensures
        body(m + w) == m + w,
        trim(m + w) == m,
        (m + w)[(m + w).len() - 1] != '-',
{
    let s = m + w;
    let n = s.len() as int;
    assert(s[n - 1] != '-') by {
        if w.len() > 0 {
            assert(s[n - 1] == w[w.len() - 1]);
            assert(white_space(w[w.len() - 1]));
        }
    }
    if exists|i: int| separator_at(s, i) {
        let i = choose|i: int| separator_at(s, i);
        let d = s.subrange(i + 1, n);
        assert(d[d.len() - 1] == s[n - 1]);
    }
    assert(first_solid(s, 0) == 0) by {
        assert(s[0] == m[0]);
    }
    lemma_last_solid_at(s, n, m.len() as int);
    assert(s.subrange(0, m.len() as int) =~= m);
}

proof fn lemma_last_solid_at(s: Seq<char>, j: int, t: int)
    requires
        0 < t <= j <= s.len(),
        forall|k: int| t <= k < j ==> white_space(#[trigger] s[k]),
        !white_space(s[t - 1]),
    ensures
        last_solid(s, j) == t,
    decreases j,
{
    if j > t {
        lemma_last_solid_at(s, j - 1, t);
    }
}

/// The server's refusals for lack of permission, with or without trailing
/// white space, are read as that refusal and as nothing else.
pub proof fn lemma_no_permission_refusals(w: Seq<char>, e: ChatEvent)
    requires
        !word_char(' '),
        forall|k: int| 0 <= k < w.len() ==> white_space(#[trigger] w[k]),
    ensures
        classified("You must be the Guild Master to use that command!"@ + w, e) <==> e
            == ChatEvent::CommandResponse(Response::NoPermission),
        classified("You do not have permission to use this command!"@ + w, e) <==> e
            == ChatEvent::CommandResponse(Response::NoPermission),
        classified(
            "I'm sorry, but you do not have permission to perform this command. Please contact the server administrators if you believe that this is in error."@
                + w,
            e,
        ) <==> e == ChatEvent::CommandResponse(Response::NoPermission),
        classified("Your guild rank does not have permission to use this!"@ + w, e) <==> e
            == ChatEvent::CommandResponse(Response::NoPermission),
{
    reveal_strlit("You must be the Guild Master to use that command!");
    reveal_strlit("You do not have permission to use this command!");
    reveal_strlit(
        "I'm sorry, but you do not have permission to perform this command. Please contact the server administrators if you believe that this is in error.",
    );
    reveal_strlit("Your guild rank does not have permission to use this!");
    assert("You must be the Guild Master to use that command!"@[3] != "Your guild rank does not have permission to use this!"@[3]);
    assert("You do not have permission to use this command!"@[3] != "Your guild rank does not have permission to use this!"@[3]);
    assert("I'm sorry, but you do not have permission to perform this command. Please contact the server administrators if you believe that this is in error."@[0] != "Your guild rank does not have permission to use this!"@[0]);
    lemma_refusal("You must be the Guild Master to use that command!"@, w, 3);
    lemma_refusal("You do not have permission to use this command!"@, w, 3);
    lemma_refusal(
        "I'm sorry, but you do not have permission to perform this command. Please contact the server administrators if you believe that this is in error."@,
        w,
        3,
    );
    lemma_refusal("Your guild rank does not have permission to use this!"@, w, 4);
}

/// The server's other fixed replies — the bot being in no guild, a disabled
/// command, an unknown command — are read as that reply and as nothing else,
/// also when a closing dash line follows them.
pub proof fn lemma_fixed_replies(d: Seq<char>, e: ChatEvent)
    requires
        !word_char(' '),
        d.len() == 0 || dash_line(d),
    ensures
        classified(
            if d.len() == 0 { "You must be in a guild to use this command!"@ } else {
                "You must be in a guild to use this command!"@ + "\n"@ + d
            },
            e,
        ) <==> e == ChatEvent::CommandResponse(Response::BotNotInGuild),
        classified(
            if d.len() == 0 { "This command is currently disabled."@ } else {
                "This command is currently disabled."@ + "\n"@ + d
            },
            e,
        ) <==> e == ChatEvent::CommandResponse(Response::CommandDisabled),
        classified(
            if d.len() == 0 { "Unknown command. Type \"/help\" for help."@ } else {
                "Unknown command. Type \"/help\" for help."@ + "\n"@ + d
            },
            e,
        ) <==> e == ChatEvent::CommandResponse(Response::UnknownCommand),
        classified(
            if d.len() == 0 { "Unknown or incomplete command, see below for error"@ } else {
                "Unknown or incomplete command, see below for error"@ + "\n"@ + d
            },
            e,
        ) <==> e == ChatEvent::CommandResponse(Response::UnknownCommand),
{
    lemma_fixed_reply(
        "You must be in a guild to use this command!"@,
        d,
        e,
        3,
        ChatEvent::CommandResponse(Response::BotNotInGuild),
    );
    lemma_fixed_reply(
        "This command is currently disabled."@,
        d,
        e,
        4,
        ChatEvent::CommandResponse(Response::CommandDisabled),
    );
    lemma_fixed_reply(
        "Unknown command. Type \"/help\" for help."@,
        d,
        e,
        7,
        ChatEvent::CommandResponse(Response::UnknownCommand),
    );
    lemma_fixed_reply(
        "Unknown or incomplete command, see below for error"@,
        d,
        e,
        7,
        ChatEvent::CommandResponse(Response::UnknownCommand),
    );
}

proof fn lemma_fixed_reply(m: Seq<char>, d: Seq<char>, e: ChatEvent, p: int, x: ChatEvent)
    requires
        !word_char(' '),
        d.len() == 0 || dash_line(d),
        m == "You must be in a guild to use this command!"@ && p == 3 && x
            == ChatEvent::CommandResponse(Response::BotNotInGuild) || m
            == "This command is currently disabled."@ && p == 4 && x
            == ChatEvent::CommandResponse(Response::CommandDisabled) || m
            == "Unknown command. Type \"/help\" for help."@ && p == 7 && x
            == ChatEvent::CommandResponse(Response::UnknownCommand) || m
            == "Unknown or incomplete command, see below for error"@ && p == 7 && x
            == ChatEvent::CommandResponse(Response::UnknownCommand),
    ensures
        classified(if d.len() == 0 { m } else { m + "\n"@ + d }, e) <==> e == x,
{
    reveal_strlit("You must be in a guild to use this command!");
    reveal_strlit("This command is currently disabled.");
    reveal_strlit("Unknown command. Type \"/help\" for help.");
    reveal_strlit("Unknown or incomplete command, see below for error");
    reveal_strlit("You must be the Guild Master to use that command!");
    reveal_strlit("You do not have permission to use this command!");
    reveal_strlit(
        "I'm sorry, but you do not have permission to perform this command. Please contact the server administrators if you believe that this is in error.",
    );
    reveal_strlit("Your guild rank does not have permission to use this!");
    if d.len() > 0 {
        lemma_closing_dash_line(m, d, e);
    } else {
        lemma_padded_message(m, Seq::empty());
        assert(m + Seq::<char>::empty() =~= m);
    }
    lemma_padded_message(m, Seq::empty());
    assert(m + Seq::<char>::empty() =~= m);
    assert forall|k: int| 0 <= k < p implies #[trigger] m[k] != ' ' by {}
    lemma_not_an_event(m, p);
    assert(!no_permission_message(m)) by {
        if m.len() == "You must be the Guild Master to use that command!"@.len() {
            assert(m[5] != "You must be the Guild Master to use that command!"@[5] || m[12]
                != "You must be the Guild Master to use that command!"@[12]);
        }
        if m.len() == "You do not have permission to use this command!"@.len() {
            assert(m[4] != "You do not have permission to use this command!"@[4]);
        }
    }
    assert(body(m) == m);
}

proof fn lemma_refusal(m: Seq<char>, w: Seq<char>, p: int)
    requires
        !word_char(' '),
        forall|k: int| 0 <= k < w.len() ==> white_space(#[trigger] w[k]),
        m == "You must be the Guild Master to use that command!"@ || m
            == "You do not have permission to use this command!"@ || m
            == "I'm sorry, but you do not have permission to perform this command. Please contact the server administrators if you believe that this is in error."@
            || m == "Your guild rank does not have permission to use this!"@,
        p == (if m == "Your guild rank does not have permission to use this!"@ {
            4int
        } else {
            3int
        }),
    ensures
        forall|e: ChatEvent|
            classified(m + w, e) <==> e == ChatEvent::CommandResponse(Response::NoPermission),
{
    reveal_strlit("You must be the Guild Master to use that command!");
    reveal_strlit("You do not have permission to use this command!");
    reveal_strlit(
        "I'm sorry, but you do not have permission to perform this command. Please contact the server administrators if you believe that this is in error.",
    );
    reveal_strlit("Your guild rank does not have permission to use this!");
    let s = m + w;
    lemma_padded_message(m, w);
    assert forall|k: int| 0 <= k < p implies #[trigger] s[k] != ' ' by {
        assert(s[k] == m[k]);
    }
    assert(s[p] == m[p]);
    assert(s[p + 1] == m[p + 1]);
    assert(s[0] == m[0]);
    lemma_not_an_event(s, p);
    assert(no_permission_message(trim(s)));
}

/// A line without a newline.
pub open spec fn one_line(s: Seq<char>) -> bool {
    forall|k: int| 0 <= k < s.len() ==> #[trigger] s[k] != '\n'
}

proof fn lemma_one_line_concat(a: Seq<char>, b: Seq<char>)
    requires
        one_line(a),
        one_line(b),
    ensures
        one_line(a + b),
{
    assert forall|k: int| 0 <= k < (a + b).len() implies #[trigger] (a + b)[k] != '\n' by {
        if k < a.len() {
            assert((a + b)[k] == a[k]);
        } else {
            assert((a + b)[k] == b[k - a.len()]);
        }
    }
}

proof fn lemma_plain_name_one_line(n: Seq<char>)
    requires
        crate::chat::plain_name(n),
    ensures
        one_line(n),
{
    assert forall|k: int| 0 <= k < n.len() implies #[trigger] n[k] != '\n' by {
        assert(crate::text::ascii_word(n[k]));
    }
}

/// A line without a newline is its own body.
proof fn lemma_one_line_body(s: Seq<char>)
    requires
        one_line(s),
    ensures
        body(s) == s,
{
    if exists|i: int| separator_at(s, i) {
        let i = choose|i: int| separator_at(s, i);
        assert(s[i] == '\n');
    }
}

/// The lines the server prints when a member joins, leaves or is kicked, or
/// logs in or out, are read as that event about that member.
pub proof fn lemma_member_lines_classified(name: Seq<char>, by: Seq<char>, e: ChatEvent)
    requires
        crate::chat::plain_name(name),
        crate::chat::plain_name(by),
        !word_char(' '),
        !word_char('!'),
    ensures
        classified(name + " joined the guild!"@, e) <==> (e matches ChatEvent::GuildEvent(
            GuildEvent::Join(x),
        ) && x@ == name),
        classified(name + " left the guild!"@, e) <==> (e matches ChatEvent::GuildEvent(
            GuildEvent::Leave(x),
        ) && x@ == name),
        classified(name + " was kicked from the guild by "@ + by + "!"@, e) <==> (e matches ChatEvent::GuildEvent(
            GuildEvent::Kick { member, by: b },
        ) && member@ == name && b@ == by),
        classified("Guild > "@ + name + " joined."@, e) <==> (e matches ChatEvent::Toggle {
            member,
            online,
        } && member@ == name && online),
        classified("Guild > "@ + name + " left."@, e) <==> (e matches ChatEvent::Toggle {
            member,
            online,
        } && member@ == name && !online),
{
    reveal_strlit(" joined the guild!");
    reveal_strlit(" left the guild!");
    reveal_strlit(" was kicked from the guild by ");
    reveal_strlit("!");
    reveal_strlit("Guild > ");
    reveal_strlit(" joined.");
    reveal_strlit(" left.");
    lemma_plain_name_one_line(name);
    lemma_plain_name_one_line(by);
    lemma_one_line_concat(name, " joined the guild!"@);
    lemma_one_line_body(name + " joined the guild!"@);
    lemma_one_line_concat(name, " left the guild!"@);
    lemma_one_line_body(name + " left the guild!"@);
    lemma_one_line_concat(name, " was kicked from the guild by "@);
    lemma_one_line_concat(name + " was kicked from the guild by "@, by);
    lemma_one_line_concat(name + " was kicked from the guild by "@ + by, "!"@);
    lemma_one_line_body(name + " was kicked from the guild by "@ + by + "!"@);
    lemma_one_line_concat("Guild > "@, name);
    lemma_one_line_concat("Guild > "@ + name, " joined."@);
    lemma_one_line_body("Guild > "@ + name + " joined."@);
    lemma_one_line_concat("Guild > "@ + name, " left."@);
    lemma_one_line_body("Guild > "@ + name + " left."@);
    crate::chat::lemma_join_read_back(name);
    crate::chat::lemma_leave_read_back(name);
    crate::chat::lemma_kick_read_back(name, by);
    crate::chat::lemma_login_read_back(name);
    crate::chat::lemma_logout_read_back(name);
}

/// The lines the server prints when a member is promoted or demoted are read
/// as that rank change, with the old rank first and the new rank last.
pub proof fn lemma_rank_lines_classified(
    name: Seq<char>,
    from: Seq<char>,
    to: Seq<char>,
    e: ChatEvent,
)
    requires
        crate::chat::plain_name(name),
        crate::chat::plain_ranks(from, to),
        !word_char(' '),
    ensures
        classified(name + " was promoted from "@ + from + " to "@ + to, e) <==> (e matches ChatEvent::GuildEvent(
            GuildEvent::Promotion { member, old_rank, new_rank },
        ) && member@ == name && old_rank@ == from && new_rank@ == to),
        classified(name + " was demoted from "@ + from + " to "@ + to, e) <==> (e matches ChatEvent::GuildEvent(
            GuildEvent::Demotion { member, old_rank, new_rank },
        ) && member@ == name && old_rank@ == from && new_rank@ == to),
{
    reveal_strlit(" was promoted from ");
    reveal_strlit(" was demoted from ");
    reveal_strlit(" to ");
    lemma_plain_name_one_line(name);
    assert(one_line(from));
    assert(one_line(to));
    lemma_one_line_concat(name, " was promoted from "@);
    lemma_one_line_concat(name + " was promoted from "@, from);
    lemma_one_line_concat(name + " was promoted from "@ + from, " to "@);
    lemma_one_line_concat(name + " was promoted from "@ + from + " to "@, to);
    lemma_one_line_body(name + " was promoted from "@ + from + " to "@ + to);
    lemma_one_line_concat(name, " was demoted from "@);
    lemma_one_line_concat(name + " was demoted from "@, from);
    lemma_one_line_concat(name + " was demoted from "@ + from, " to "@);
    lemma_one_line_concat(name + " was demoted from "@ + from + " to "@, to);
    lemma_one_line_body(name + " was demoted from "@ + from + " to "@ + to);
    crate::chat::lemma_promotion_read_back(name, from, to);
    crate::chat::lemma_demotion_read_back(name, from, to);
}

/// The lines the server prints for mutes and unmutes, of a member or of the
/// guild chat, are read as that moderation: the muted member, who did it,
/// and for how long.
pub proof fn lemma_moderation_lines_classified(
    by: Seq<char>,
    name: Seq<char>,
    time: Seq<char>,
    e: ChatEvent,
)
    requires
        crate::chat::plain_name(by),
        crate::chat::plain_name(name),
        crate::chat::plain_name(time),
        !word_char(' '),
    ensures
        classified(by + " has muted "@ + name + " for "@ + time, e) <==> (e matches ChatEvent::Moderation(
            Moderation::Mute { member: Some(m), by: b, time: t },
        ) && m@ == name && b@ == by && t@ == time),
        classified(by + " has unmuted "@ + name, e) <==> (e matches ChatEvent::Moderation(
            Moderation::Unmute { member: Some(m), by: b },
        ) && m@ == name && b@ == by),
        classified(by + " has muted the guild chat for "@ + time, e) <==> (e matches ChatEvent::Moderation(
            Moderation::Mute { member: None, by: b, time: t },
        ) && b@ == by && t@ == time),
        classified(by + " has unmuted the guild chat!"@, e) <==> (e matches ChatEvent::Moderation(
            Moderation::Unmute { member: None, by: b },
        ) && b@ == by),
{
    reveal_strlit(" has muted ");
    reveal_strlit(" for ");
    reveal_strlit(" has unmuted ");
    reveal_strlit(" has muted the guild chat for ");
    reveal_strlit(" has unmuted the guild chat!");
    lemma_plain_name_one_line(by);
    lemma_plain_name_one_line(name);
    lemma_plain_name_one_line(time);
    lemma_one_line_concat(by, " has muted "@);
    lemma_one_line_concat(by + " has muted "@, name);
    lemma_one_line_concat(by + " has muted "@ + name, " for "@);
    lemma_one_line_concat(by + " has muted "@ + name + " for "@, time);
    lemma_one_line_body(by + " has muted "@ + name + " for "@ + time);
    lemma_one_line_concat(by, " has unmuted "@);
    lemma_one_line_concat(by + " has unmuted "@, name);
    lemma_one_line_body(by + " has unmuted "@ + name);
    lemma_one_line_concat(by, " has muted the guild chat for "@);
    lemma_one_line_concat(by + " has muted the guild chat for "@, time);
    lemma_one_line_body(by + " has muted the guild chat for "@ + time);
    lemma_one_line_concat(by, " has unmuted the guild chat!"@);
    lemma_one_line_body(by + " has unmuted the guild chat!"@);
    crate::chat::lemma_mute_read_back(by, name, time);
    crate::chat::lemma_unmute_read_back(by, name);
    crate::chat::lemma_guild_mute_read_back(by, time);
    crate::chat::lemma_guild_unmute_read_back(by);
}

/// Guild and officer chat lines are read as the message they carry, its
/// sender, its content and its chat.
pub proof fn lemma_chat_lines_classified(name: Seq<char>, content: Seq<char>, e: ChatEvent)
    requires
        crate::chat::plain_name(name),
        !word_char(':'),
        content.len() > 0,
        crate::grammar::no_newline(content, 0, content.len() as int),
        !crate::chat::separator_line(content),
    ensures
        classified("Guild > "@ + name + ": "@ + content, e) <==> (e matches ChatEvent::Message {
            author,
            content: c,
            chat,
        } && author@ == name && c@ == content && chat == Chat::Guild),
        classified("Officer > "@ + name + ": "@ + content, e) <==> (e matches ChatEvent::Message {
            author,
            content: c,
            chat,
        } && author@ == name && c@ == content && chat == Chat::Officer),
{
    reveal_strlit("Guild > ");
    reveal_strlit("Officer > ");
    reveal_strlit(": ");
    lemma_plain_name_one_line(name);
    assert(one_line(content));
    lemma_one_line_concat("Guild > "@, name);
    lemma_one_line_concat("Guild > "@ + name, ": "@);
    lemma_one_line_concat("Guild > "@ + name + ": "@, content);
    lemma_one_line_body("Guild > "@ + name + ": "@ + content);
    lemma_one_line_concat("Officer > "@, name);
    lemma_one_line_concat("Officer > "@ + name, ": "@);
    lemma_one_line_concat("Officer > "@ + name + ": "@, content);
    lemma_one_line_body("Officer > "@ + name + ": "@ + content);
    crate::chat::lemma_guild_message_read_back(name, content);
    crate::chat::lemma_officer_message_read_back(name, content);
}

fn is_no_permission_message(v: &Vec<char>, from: usize, to: usize) -> (b: bool)
    requires
        from <= to <= v@.len(),
    ensures
        b == no_permission_message(v@.subrange(from as int, to as int)),
{
    eq_str(v, from, to, "You must be the Guild Master to use that command!")
        || eq_str(v, from, to, "You do not have permission to use this command!")
        || eq_str(
        v,
        from,
        to,
        "I'm sorry, but you do not have permission to perform this command. Please contact the server administrators if you believe that this is in error.",
    ) || eq_str(v, from, to, "Your guild rank does not have permission to use this!")
}

/// Classifies a line that is no chat payload as a command response, or as
/// unknown.
fn classify_other(line: &str, s: &Vec<char>) -> (e: ChatEvent)
    requires
        s@ == line@,
    ensures
        match not_in_guild_line(s@) {
            Some(c) => e matches ChatEvent::CommandResponse(Response::PlayerNotInGuild(x)) && x@
                == cap(s@, c[0]),
            None => match player_not_found_line(s@) {
                Some(c) => e matches ChatEvent::CommandResponse(Response::PlayerNotFound(x)) && x@
                    == cap(s@, c[0]),
                None => if no_permission_message(trim(s@)) {
                    e == ChatEvent::CommandResponse(Response::NoPermission)
                } else if s@ == "You must be in a guild to use this command!"@ {
                    e == ChatEvent::CommandResponse(Response::BotNotInGuild)
                } else if s@ == "This command is currently disabled."@ {
                    e == ChatEvent::CommandResponse(Response::CommandDisabled)
                } else if unknown_command_message(s@) {
                    e == ChatEvent::CommandResponse(Response::UnknownCommand)
                } else {
                    e matches ChatEvent::Unknown(x) && x@ == s@
                },
            },
        },
{
    let n = s.len();
    if let Some(c) = ranked_in(Tail::Plain(Simple::WordThen(Phrase::NotInYourGuild)), s, 0) {
        return ChatEvent::CommandResponse(Response::PlayerNotInGuild(cap_exec(s, &c, 0)));
    }
    let h = "Can't find a player by the name of '";
    if lit_at_exec(s, 0, h) {
        let hl = h.unicode_len();
        if let Some(c) = simple_in(Simple::WordThen(Phrase::Quote), s, hl) {
            return ChatEvent::CommandResponse(Response::PlayerNotFound(cap_exec(s, &c, 0)));
        }
    }
    let (a, b) = trim_bounds(s);
    if is_no_permission_message(s, a, b) {
        return ChatEvent::CommandResponse(Response::NoPermission);
    }
    proof {
        assert(s@.subrange(0, n as int) =~= s@);
    }
    if eq_str(s, 0, n, "You must be in a guild to use this command!") {
        return ChatEvent::CommandResponse(Response::BotNotInGuild);
    }
    if eq_str(s, 0, n, "This command is currently disabled.") {
        return ChatEvent::CommandResponse(Response::CommandDisabled);
    }
    if eq_str(s, 0, n, "Unknown command. Type \"/help\" for help.") || eq_str(
        s,
        0,
        n,
        "Unknown or incomplete command, see below for error",
    ) {
        return ChatEvent::CommandResponse(Response::UnknownCommand);
    }
    ChatEvent::Unknown(crate::text::str_to_string(line))
}

/// Where the body of a message ends.
fn body_end(v: &Vec<char>) -> (cut: usize)
    ensures
        cut <= v@.len(),
        v@.subrange(0, cut as int) == body(v@),
{
    let n = v.len();
    let mut j = n;
    while j > 0 && v[j - 1] == '-'
        invariant
            j <= n == v@.len(),
            forall|k: int| j <= k < n ==> v@[k] == '-',
        decreases j,
    {
        j = j - 1;
    }
    let ghost s = v@;
    if j > 0 && j < n && v[j - 1] == '\n' {
        proof {
            let i = (j - 1) as int;
            assert(s.subrange(i + 1, n as int)[0] == s[i + 1]);
            let tail = s.subrange(i + 1, n as int);
            assert forall|k: int| 0 <= k < tail.len() implies #[trigger] tail[k] == '-' by {
                assert(tail[k] == s[i + 1 + k]);
            }
            assert(separator_at(s, i));
            let c = choose|c: int| separator_at(s, c);
            if c != i {
                if c > i {
                    assert(s[c] == '-');
                } else {
                    assert(s.subrange(c + 1, n as int)[i - c - 1] == s[i]);
                }
            }
        }
        j - 1
    } else {
        proof {
            if exists|i: int| separator_at(s, i) {
                let c = choose|c: int| separator_at(s, c);
                assert forall|k: int| c < k < n implies s[k] == '-' by {
                    assert(s.subrange(c + 1, n as int)[k - c - 1] == s[k]);
                }
                assert(s.subrange(c + 1, n as int)[0] == s[c + 1]);
                if j > c + 1 {
                    assert(s[j - 1] == '-');
                } else if j < c + 1 {
                    assert(s[c] == '-');
                }
            }
            assert(s.subrange(0, n as int) =~= s);
        }
        n
    }
}

impl ChatEvent {
    /// Classifies a Minecraft chat message: the body of the message, without
    /// a closing dash line, is a payload for Discord first, then a reply to a
    /// command, else unknown.
    pub fn classify(line: &str) -> (e: ChatEvent)
        ensures
            classified(line@, e),
    {
        let v = chars_of(line);
        let cut = body_end(&v);
        let b = string_of(&v, 0, cut);
        ChatEvent::classify_line(b.as_str())
    }

    /// Classifies one line.
    fn classify_line(line: &str) -> (e: ChatEvent)
        ensures
            classified_line(line@, e),
    {
        match handle(line) {
            Some(FromMinecraft::Message(author, content, chat)) => ChatEvent::Message {
                author,
                content,
                chat,
            },
            Some(FromMinecraft::Login(member)) => ChatEvent::Toggle { member, online: true },
            Some(FromMinecraft::Logout(member)) => ChatEvent::Toggle { member, online: false },
            Some(FromMinecraft::Join(m)) => ChatEvent::GuildEvent(GuildEvent::Join(m)),
            Some(FromMinecraft::Leave(m)) => ChatEvent::GuildEvent(GuildEvent::Leave(m)),
            Some(FromMinecraft::Kick(member, by)) => ChatEvent::GuildEvent(
                GuildEvent::Kick { member, by },
            ),
            Some(FromMinecraft::Promotion(member, old_rank, new_rank)) => ChatEvent::GuildEvent(
                GuildEvent::Promotion { member, old_rank, new_rank },
            ),
            Some(FromMinecraft::Demotion(member, old_rank, new_rank)) => ChatEvent::GuildEvent(
                GuildEvent::Demotion { member, old_rank, new_rank },
            ),
            Some(FromMinecraft::Mute(m, by, time)) => ChatEvent::Moderation(
                Moderation::Mute { member: Some(m), by, time },
            ),
            Some(FromMinecraft::GuildMute(by, time)) => ChatEvent::Moderation(
                Moderation::Mute { member: None, by, time },
            ),
            Some(FromMinecraft::Unmute(m, by)) => ChatEvent::Moderation(
                Moderation::Unmute { member: Some(m), by },
            ),
            Some(FromMinecraft::GuildUnmute(by)) => ChatEvent::Moderation(
                Moderation::Unmute { member: None, by },
            ),
            _ => {
                let s = chars_of(line);
                classify_other(line, &s)
            },
        }
    }
}

/// A raw Minecraft chat line together with its classification.
#[derive(Debug)]
pub struct RawChatEvent {
    raw: String,
    event: ChatEvent,
}

impl View for RawChatEvent {
    type V = Seq<char>;

    /// The raw line.
    closed spec fn view(&self) -> Seq<char> {
        self.raw@
    }
}

impl RawChatEvent {
    #[verifier::type_invariant]
    spec fn well_formed(self) -> bool {
        classified(self.raw@, self.event)
    }

    /// The event the line was classified as.
    pub closed spec fn parsed(self) -> ChatEvent {
        self.event
    }

    /// Classifies a raw chat line.
    pub fn new(line: &str) -> (r: RawChatEvent)
        ensures
            r@ == line@,
            classified(line@, r.parsed()),
    {
        RawChatEvent { raw: crate::text::str_to_string(line), event: ChatEvent::classify(line) }
    }

    /// The raw line.
    pub fn raw(&self) -> (r: &str)
        ensures
            r@ == self@,
    {
        self.raw.as_str()
    }

    /// The event the line was classified as.
    pub fn as_chat_event(&self) -> (e: &ChatEvent)
        ensures
            *e == self.parsed(),
            classified(self@, *e),
    {
        proof {
            use_type_invariant(self);
        }
        &self.event
    }
}

} // verus!
