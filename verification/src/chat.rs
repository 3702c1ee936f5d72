//! The Minecraft chat lines the bridge reacts to, and the payloads they become.

use crate::grammar::{
    inner, lit_at, lit_at_exec, no_newline, no_newline_exec, phrase, phrase_char_ok, rank_end,
    rank_then, rank_then_simple, ranked, ranked_exec, run_end, simple, simple_arity, simple_exec, solid_end, solid_end_exec,
    spans_of, tail, tail_arity, word_end, Phrase, Simple, Span, Tail,
};
use crate::grammar::{last_to, lemma_run_end};
use crate::mentions::occurs;
use crate::text::{ascii_word, chars_of, string_of, white_space, word_char};
use vstd::prelude::*;

verus! {

/// A chat which messages can be sent from and to.
#[derive(Clone, Copy, PartialEq, Eq, Structural, Debug)]
pub enum Chat {
    /// Guild chat, `/gc` in game.
    Guild,
    /// Officer chat, `/oc` in game.
    Officer,
}

/// The in-game command that writes to a chat.
pub open spec fn prefix_of(chat: Chat) -> Seq<char> {
    match chat {
        Chat::Guild => "gc"@,
        Chat::Officer => "oc"@,
    }
}

impl Chat {
    /// The in-game command that writes to this chat (`gc` or `oc`).
    pub fn prefix(&self) -> (p: &'static str)
        ensures
            p@ == prefix_of(*self),
    {
        match self {
            Chat::Guild => "gc",
            Chat::Officer => "oc",
        }
    }

    pub fn is_officer(&self) -> (b: bool)
        ensures
            b == (*self == Chat::Officer),
    {
        match self {
            Chat::Guild => false,
            Chat::Officer => true,
        }
    }
}

/// A payload sent from Minecraft to Discord.
#[derive(Debug, Clone, PartialEq, Eq)]
pub enum FromMinecraft {
    /// A chat message: the sender's name, the content and the chat.
    Message(String, String, Chat),
    /// The Minecraft client connected; holds the bot's username.
    Connect(String),
    /// The Minecraft client was disconnected; holds the reason.
    Disconnect(String),
    /// A guild member logged in to Hypixel.
    Login(String),
    /// A guild member logged out of Hypixel.
    Logout(String),
    /// A member joined the guild.
    Join(String),
    /// A member left the guild.
    Leave(String),
    /// A member was kicked: the member and who kicked them.
    Kick(String, String),
    /// A member was promoted: the member, the old rank and the new rank.
    Promotion(String, String, String),
    /// A member was demoted: the member, the old rank and the new rank.
    Demotion(String, String, String),
    /// A member was muted: the member, who muted them and for how long.
    Mute(String, String, String),
    /// A member was unmuted: the member and who unmuted them.
    Unmute(String, String),
    /// Guild chat was muted: who muted it and for how long.
    GuildMute(String, String),
    /// Guild chat was unmuted: who unmuted it.
    GuildUnmute(String),
    /// Raw message content.
    Raw(String),
}

/// The mathematical value of a [`FromMinecraft`] payload.
pub enum Event {
    Message(Seq<char>, Seq<char>, Chat),
    Connect(Seq<char>),
    Disconnect(Seq<char>),
    Login(Seq<char>),
    Logout(Seq<char>),
    Join(Seq<char>),
    Leave(Seq<char>),
    Kick(Seq<char>, Seq<char>),
    Promotion(Seq<char>, Seq<char>, Seq<char>),
    Demotion(Seq<char>, Seq<char>, Seq<char>),
    Mute(Seq<char>, Seq<char>, Seq<char>),
    Unmute(Seq<char>, Seq<char>),
    GuildMute(Seq<char>, Seq<char>),
    GuildUnmute(Seq<char>),
    Raw(Seq<char>),
}

impl View for FromMinecraft {
    type V = Event;

    open spec fn view(&self) -> Event {
        match self {
            FromMinecraft::Message(a, b, c) => Event::Message(a@, b@, *c),
            FromMinecraft::Connect(a) => Event::Connect(a@),
            FromMinecraft::Disconnect(a) => Event::Disconnect(a@),
            FromMinecraft::Login(a) => Event::Login(a@),
            FromMinecraft::Logout(a) => Event::Logout(a@),
            FromMinecraft::Join(a) => Event::Join(a@),
            FromMinecraft::Leave(a) => Event::Leave(a@),
            FromMinecraft::Kick(a, b) => Event::Kick(a@, b@),
            FromMinecraft::Promotion(a, b, c) => Event::Promotion(a@, b@, c@),
            FromMinecraft::Demotion(a, b, c) => Event::Demotion(a@, b@, c@),
            FromMinecraft::Mute(a, b, c) => Event::Mute(a@, b@, c@),
            FromMinecraft::Unmute(a, b) => Event::Unmute(a@, b@),
            FromMinecraft::GuildMute(a, b) => Event::GuildMute(a@, b@),
            FromMinecraft::GuildUnmute(a) => Event::GuildUnmute(a@),
            FromMinecraft::Raw(a) => Event::Raw(a@),
        }
    }
}

/// The text of a span.
pub open spec fn cap(s: Seq<char>, sp: Span) -> Seq<char> {
    s.subrange(sp.0, sp.1)
}

/// A line that ends in `&` and one or more dashes (regex `&-+$`).
pub open spec fn separator_line(s: Seq<char>) -> bool {
    exists|i: int|
        0 <= i && i + 1 < s.len() && #[trigger] s[i] == '&' && forall|k: int|
            i < k < s.len() ==> #[trigger] s[k] == '-'
}

/// Where the sender's name starts after the header of a chat message, seen
/// through the optional player rank `(?:\[\S+\] )?`.
pub open spec fn after_player_rank(s: Seq<char>, p: int) -> Option<int> {
    if p < s.len() && s[p] == '[' {
        let q = solid_end(s, p);
        if q < s.len() && s[q] == ' ' && q >= p + 3 && s[q - 1] == ']' {
            Some(q + 1)
        } else {
            None
        }
    } else {
        Some(p)
    }
}

/// Where the content starts after the sender's name ending at `e`, seen
/// through the optional guild rank `(?: \[\S+\])?` and `: `.
pub open spec fn after_guild_rank(s: Seq<char>, e: int) -> Option<int> {
    if e < s.len() && s[e] == ' ' {
        let q = solid_end(s, e + 1);
        if e + 1 < s.len() && s[e + 1] == '[' && q < s.len() && s[q] == ' ' && q >= e + 5 && s[q
            - 1] == ':' && s[q - 2] == ']' {
            Some(q + 1)
        } else {
            None
        }
    } else if lit_at(s, e, ": "@) {
        Some(e + 2)
    } else {
        None
    }
}

/// `^HEADER(?:\[\S+\] )?(\w+)(?: \[\S+\])?: (.+)$`: the spans of the sender and
/// of the content.
pub open spec fn chat_message(s: Seq<char>, header: Seq<char>) -> Option<Seq<Span>> {
    if !lit_at(s, 0, header) {
        None
    } else {
        match after_player_rank(s, header.len() as int) {
            None => None,
            Some(u) => {
                let e = run_end(s, u);
                if !(u < e) {
                    None
                } else {
                    match after_guild_rank(s, e) {
                        None => None,
                        Some(m) => if m < s.len() && no_newline(s, m, s.len() as int) {
                            Some(seq![(u, e), (m, s.len() as int)])
                        } else {
                            None
                        },
                    }
                }
            },
        }
    }
}

/// The patterns tried after the chat messages, in order, with the position
/// where each starts.
pub open spec fn login_line(s: Seq<char>) -> Option<Seq<Span>> {
    if lit_at(s, 0, "Guild > "@) {
        simple(Simple::WordThen(Phrase::JoinedShort), s, 8)
    } else {
        None
    }
}

pub open spec fn logout_line(s: Seq<char>) -> Option<Seq<Span>> {
    if lit_at(s, 0, "Guild > "@) {
        simple(Simple::WordThen(Phrase::LeftShort), s, 8)
    } else {
        None
    }
}

pub open spec fn join_line(s: Seq<char>) -> Option<Seq<Span>> {
    ranked(Tail::Plain(Simple::WordThen(Phrase::JoinedGuild)), s, 0)
}

pub open spec fn leave_line(s: Seq<char>) -> Option<Seq<Span>> {
    ranked(Tail::Plain(Simple::WordThen(Phrase::LeftGuild)), s, 0)
}

pub open spec fn kick_line(s: Seq<char>) -> Option<Seq<Span>> {
    ranked(Tail::Ranked(Phrase::KickedBy), s, 0)
}

pub open spec fn promote_line(s: Seq<char>) -> Option<Seq<Span>> {
    ranked(Tail::Plain(Simple::FromTo(Phrase::PromotedFrom)), s, 0)
}

pub open spec fn demote_line(s: Seq<char>) -> Option<Seq<Span>> {
    ranked(Tail::Plain(Simple::FromTo(Phrase::DemotedFrom)), s, 0)
}

pub open spec fn mute_line(s: Seq<char>) -> Option<Seq<Span>> {
    ranked(Tail::Ranked(Phrase::HasMuted), s, 0)
}

pub open spec fn unmute_line(s: Seq<char>) -> Option<Seq<Span>> {
    ranked(Tail::Ranked(Phrase::HasUnmuted), s, 0)
}

pub open spec fn guild_mute_line(s: Seq<char>) -> Option<Seq<Span>> {
    ranked(Tail::Plain(Simple::WordPhraseWord(Phrase::GuildChatMutedFor)), s, 0)
}

pub open spec fn guild_unmute_line(s: Seq<char>) -> Option<Seq<Span>> {
    ranked(Tail::Plain(Simple::WordThen(Phrase::GuildChatUnmuted)), s, 0)
}

/// The payload a Minecraft chat line becomes, if any: the first pattern that
/// matches decides, separator lines become nothing.
pub open spec fn parse_line(s: Seq<char>) -> Option<Event> {
    if separator_line(s) {
        None
    } else if let Some(c) = chat_message(s, "Guild > "@) {
        Some(Event::Message(cap(s, c[0]), cap(s, c[1]), Chat::Guild))
    } else if let Some(c) = chat_message(s, "Officer > "@) {
        Some(Event::Message(cap(s, c[0]), cap(s, c[1]), Chat::Officer))
    } else if let Some(c) = login_line(s) {
        Some(Event::Login(cap(s, c[0])))
    } else if let Some(c) = logout_line(s) {
        Some(Event::Logout(cap(s, c[0])))
    } else if let Some(c) = join_line(s) {
        Some(Event::Join(cap(s, c[0])))
    } else if let Some(c) = leave_line(s) {
        Some(Event::Leave(cap(s, c[0])))
    } else if let Some(c) = kick_line(s) {
        Some(Event::Kick(cap(s, c[0]), cap(s, c[1])))
    } else if let Some(c) = promote_line(s) {
        Some(Event::Promotion(cap(s, c[0]), cap(s, c[1]), cap(s, c[2])))
    } else if let Some(c) = demote_line(s) {
        Some(Event::Demotion(cap(s, c[0]), cap(s, c[1]), cap(s, c[2])))
    } else if let Some(c) = mute_line(s) {
        Some(Event::Mute(cap(s, c[1]), cap(s, c[0]), cap(s, c[2])))
    } else if let Some(c) = unmute_line(s) {
        Some(Event::Unmute(cap(s, c[1]), cap(s, c[0])))
    } else if let Some(c) = guild_mute_line(s) {
        Some(Event::GuildMute(cap(s, c[0]), cap(s, c[1])))
    } else if let Some(c) = guild_unmute_line(s) {
        Some(Event::GuildUnmute(cap(s, c[0])))
    } else {
        None
    }
}

// ---------------------------------------------------------------------------
// Executable classifier
// ---------------------------------------------------------------------------

/// All spans lie inside a sequence of length `n`.
pub open spec fn spans_within(v: Seq<(usize, usize)>, n: int) -> bool {
    forall|i: int| 0 <= i < v.len() ==> (#[trigger] v[i]).0 <= v[i].1 <= n
}

pub fn is_separator_line(s: &Vec<char>) -> (b: bool)
    ensures
        b == separator_line(s@),
{
    let n = s.len();
    let mut j = n;
    while j > 0 && s[j - 1] == '-'
        invariant
            j <= n == s@.len(),
            forall|k: int| j <= k < n ==> #[trigger] s@[k] == '-',
        decreases j,
    {
        j = j - 1;
    }
    if j < n && j >= 1 && s[j - 1] == '&' {
        assert(s@[j - 1] == '&');
        assert(forall|k: int| j - 1 < k < s@.len() ==> #[trigger] s@[k] == '-');
        true
    } else {
        proof {
            if separator_line(s@) {
                let i = choose|i: int|
                    0 <= i && i + 1 < s@.len() && #[trigger] s@[i] == '&' && forall|k: int|
                        i < k < s@.len() ==> #[trigger] s@[k] == '-';
                if j <= i {
                    assert(s@[i] == '-');
                } else if j > i + 1 {
                    assert(s@[j - 1] == '-');
                }
            }
        }
        false
    }
}

fn after_player_rank_exec(s: &Vec<char>, p: usize) -> (r: Option<usize>)
    requires
        p <= s@.len(),
    ensures
        match r {
            Some(u) => after_player_rank(s@, p as int) == Some(u as int) && u <= s@.len(),
            None => after_player_rank(s@, p as int) is None,
        },
{
    let n = s.len();
    if p < n && s[p] == '[' {
        let q = solid_end_exec(s, p);
        if q < n && s[q] == ' ' && q - p >= 3 && s[q - 1] == ']' {
            Some(q + 1)
        } else {
            None
        }
    } else {
        Some(p)
    }
}

fn after_guild_rank_exec(s: &Vec<char>, e: usize) -> (r: Option<usize>)
    requires
        e <= s@.len(),
    ensures
        match r {
            Some(m) => after_guild_rank(s@, e as int) == Some(m as int) && m <= s@.len(),
            None => after_guild_rank(s@, e as int) is None,
        },
{
    let n = s.len();
    if e < n && s[e] == ' ' {
        let q = solid_end_exec(s, e + 1);
        if e + 1 < n && s[e + 1] == '[' && q < n && s[q] == ' ' && q - e >= 5 && s[q - 1] == ':'
            && s[q - 2] == ']' {
            Some(q + 1)
        } else {
            None
        }
    } else if lit_at_exec(s, e, ": ") {
        proof {
            reveal_strlit(": ");
        }
        Some(e + 2)
    } else {
        None
    }
}

/// Matches a guild or officer chat message with the given header.
pub fn chat_message_exec(s: &Vec<char>, header: &str) -> (r: Option<Vec<(usize, usize)>>)
    ensures
        match r {
            Some(v) => chat_message(s@, header@) == Some(spans_of(v@)) && spans_within(
                v@,
                s@.len() as int,
            ) && v@.len() == 2,
            None => chat_message(s@, header@) is None,
        },
{
    if !lit_at_exec(s, 0, header) {
        return None;
    }
    let h = header.unicode_len();
    let n = s.len();
    match after_player_rank_exec(s, h) {
        None => None,
        Some(u) => {
            let e = word_end(s, u);
            if e == u {
                return None;
            }
            match after_guild_rank_exec(s, e) {
                None => None,
                Some(m) => {
                    if m < n && no_newline_exec(s, m, n) {
                        let mut r: Vec<(usize, usize)> = Vec::new();
                        r.push((u, e));
                        r.push((m, n));
                        assert(spans_of(r@) =~= seq![(u as int, e as int), (m as int, n as int)]);
                        Some(r)
                    } else {
                        None
                    }
                },
            }
        },
    }
}

/// Matches a simple piece at `b`, with its spans kept in range.
pub fn simple_in(x: Simple, s: &Vec<char>, b: usize) -> (r: Option<Vec<(usize, usize)>>)
    requires
        b <= s@.len(),
    ensures
        match r {
            Some(v) => simple(x, s@, b as int) == Some(spans_of(v@)) && spans_within(
                v@,
                s@.len() as int,
            ) && v@.len() == simple_arity(x),
            None => simple(x, s@, b as int) is None,
        },
{
    let r = simple_exec(x, s, b);
    match r {
        Some(v) => {
            proof {
                crate::grammar::lemma_simple_within(x, s@, b as int);
                lemma_spans_of_within(v@, s@.len() as int);
            }
            Some(v)
        },
        None => None,
    }
}

/// Matches `(?:\[.+?\] )?` and a tail at `b`, with its spans kept in range.
pub fn ranked_in(t: Tail, s: &Vec<char>, b: usize) -> (r: Option<Vec<(usize, usize)>>)
    requires
        b <= s@.len(),
    ensures
        match r {
            Some(v) => ranked(t, s@, b as int) == Some(spans_of(v@)) && spans_within(
                v@,
                s@.len() as int,
            ) && v@.len() == tail_arity(t),
            None => ranked(t, s@, b as int) is None,
        },
{
    let r = ranked_exec(t, s, b);
    match r {
        Some(v) => {
            proof {
                crate::grammar::lemma_ranked_within(t, s@, b as int);
                lemma_spans_of_within(v@, s@.len() as int);
            }
            Some(v)
        },
        None => None,
    }
}

pub proof fn lemma_spans_of_within(v: Seq<(usize, usize)>, n: int)
    requires
        crate::grammar::spans_ok(spans_of(v), n),
    ensures
        spans_within(v, n),
        spans_of(v).len() == v.len(),
{
    assert forall|i: int| 0 <= i < v.len() implies (#[trigger] v[i]).0 <= v[i].1 <= n by {
        assert(spans_of(v)[i] == (v[i].0 as int, v[i].1 as int));
    }
}

pub fn cap_exec(s: &Vec<char>, v: &Vec<(usize, usize)>, i: usize) -> (r: String)
    requires
        i < v@.len(),
        spans_within(v@, s@.len() as int),
    ensures
        r@ == cap(s@, spans_of(v@)[i as int]),
{
    let (a, b) = v[i];
    assert(v@[i as int].0 <= v@[i as int].1 <= s@.len());
    string_of(s, a, b)
}

/// Classifies a Minecraft chat line.
///
/// If the line is of interest to Discord, returns the payload to send.
pub fn handle(message: &str) -> (r: Option<FromMinecraft>)
    ensures
        match r {
            Some(e) => parse_line(message@) == Some(e@),
            None => parse_line(message@) is None,
        },
{
    let s = chars_of(message);
    if is_separator_line(&s) {
        return None;
    }
    if let Some(c) = chat_message_exec(&s, "Guild > ") {
        return Some(FromMinecraft::Message(cap_exec(&s, &c, 0), cap_exec(&s, &c, 1), Chat::Guild));
    }
    if let Some(c) = chat_message_exec(&s, "Officer > ") {
        return Some(
            FromMinecraft::Message(cap_exec(&s, &c, 0), cap_exec(&s, &c, 1), Chat::Officer),
        );
    }
    let guild_header = lit_at_exec(&s, 0, "Guild > ");
    if guild_header {
        proof {
            reveal_strlit("Guild > ");
        }
        if let Some(c) = simple_in(Simple::WordThen(Phrase::JoinedShort), &s, 8) {
            return Some(FromMinecraft::Login(cap_exec(&s, &c, 0)));
        }
        if let Some(c) = simple_in(Simple::WordThen(Phrase::LeftShort), &s, 8) {
            return Some(FromMinecraft::Logout(cap_exec(&s, &c, 0)));
        }
    }
    if let Some(c) = ranked_in(Tail::Plain(Simple::WordThen(Phrase::JoinedGuild)), &s, 0) {
        return Some(FromMinecraft::Join(cap_exec(&s, &c, 0)));
    }
    if let Some(c) = ranked_in(Tail::Plain(Simple::WordThen(Phrase::LeftGuild)), &s, 0) {
        return Some(FromMinecraft::Leave(cap_exec(&s, &c, 0)));
    }
    if let Some(c) = ranked_in(Tail::Ranked(Phrase::KickedBy), &s, 0) {
        return Some(FromMinecraft::Kick(cap_exec(&s, &c, 0), cap_exec(&s, &c, 1)));
    }
    if let Some(c) = ranked_in(Tail::Plain(Simple::FromTo(Phrase::PromotedFrom)), &s, 0) {
        return Some(
            FromMinecraft::Promotion(cap_exec(&s, &c, 0), cap_exec(&s, &c, 1), cap_exec(&s, &c, 2)),
        );
    }
    if let Some(c) = ranked_in(Tail::Plain(Simple::FromTo(Phrase::DemotedFrom)), &s, 0) {
        return Some(
            FromMinecraft::Demotion(cap_exec(&s, &c, 0), cap_exec(&s, &c, 1), cap_exec(&s, &c, 2)),
        );
    }
    if let Some(c) = ranked_in(Tail::Ranked(Phrase::HasMuted), &s, 0) {
        return Some(
            FromMinecraft::Mute(cap_exec(&s, &c, 1), cap_exec(&s, &c, 0), cap_exec(&s, &c, 2)),
        );
    }
    if let Some(c) = ranked_in(Tail::Ranked(Phrase::HasUnmuted), &s, 0) {
        return Some(FromMinecraft::Unmute(cap_exec(&s, &c, 1), cap_exec(&s, &c, 0)));
    }
    if let Some(c) = ranked_in(Tail::Plain(Simple::WordPhraseWord(Phrase::GuildChatMutedFor)), &s, 0) {
        return Some(FromMinecraft::GuildMute(cap_exec(&s, &c, 0), cap_exec(&s, &c, 1)));
    }
    if let Some(c) = ranked_in(Tail::Plain(Simple::WordThen(Phrase::GuildChatUnmuted)), &s, 0) {
        return Some(FromMinecraft::GuildUnmute(cap_exec(&s, &c, 0)));
    }
    None
}

// ---------------------------------------------------------------------------
// Reading back what the server prints
// ---------------------------------------------------------------------------

/// A name as the server prints it: ASCII letters, digits and underscores,
/// all of them `\w` characters.
pub open spec fn plain_name(name: Seq<char>) -> bool {
    &&& name.len() > 0
    &&& forall|i: int| 0 <= i < name.len() ==> ascii_word(#[trigger] name[i]) && word_char(name[i])
}

proof fn lemma_run_end_at(s: Seq<char>, i: int, e: int)
    requires
        0 <= i <= e <= s.len(),
        forall|k: int| i <= k < e ==> word_char(#[trigger] s[k]),
        e == s.len() || !word_char(s[e]),
    ensures
        run_end(s, i) == e,
    decreases e - i,
{
    if i < e {
        lemma_run_end_at(s, i + 1, e);
    }
}

pub(crate) proof fn lemma_no_rank(t: Tail, s: Seq<char>, b: int, k: int)
    requires
        0 <= b < s.len(),
        s[b] != '[',
    ensures
        rank_then(t, s, b, k) == tail(t, s, b),
    decreases s.len() + 1 - k,
{
    if k <= s.len() {
        assert(!rank_end(s, b, k));
        lemma_no_rank(t, s, b, k + 1);
    }
}

/// `lit` is found at `p` in `s` when `s` holds it there and it has no
/// wildcard.
proof fn lemma_lit_here(s: Seq<char>, p: int, lit: Seq<char>)
    requires
        0 <= p,
        p + lit.len() <= s.len(),
        s.subrange(p, p + lit.len()) == lit,
        forall|k: int| 0 <= k < lit.len() ==> lit[k] != '\0',
    ensures
        lit_at(s, p, lit),
{
    assert forall|k: int| 0 <= k < lit.len() implies phrase_char_ok(#[trigger] s[p + k], lit[k]) by {
        assert(s.subrange(p, p + lit.len())[k] == s[p + k]);
    }
}

/// No chat header starts a line that starts with a plain name followed by
/// a space.
proof fn lemma_no_header(s: Seq<char>, name: Seq<char>)
    requires
        plain_name(name),
        name.len() < s.len(),
        s.subrange(0, name.len() as int) == name,
        s[name.len() as int] == ' ',
        name.len() + 1 < s.len() ==> s[name.len() + 1int] != '>',
    ensures
        !lit_at(s, 0, "Guild > "@),
        !lit_at(s, 0, "Officer > "@),
{
    reveal_strlit("Guild > ");
    reveal_strlit("Officer > ");
    let n = name.len() as int;
    assert forall|k: int| 0 <= k < n implies s[k] == name[k] by {
        assert(s.subrange(0, n)[k] == s[k]);
    }
    if lit_at(s, 0, "Guild > "@) {
        if n >= 7 {
            assert(phrase_char_ok(s[0int + 6], "Guild > "@[6]));
        } else if n == 6 {
            assert(phrase_char_ok(s[0int + 5], "Guild > "@[5]));
        } else if n == 5 {
            assert(phrase_char_ok(s[0int + 6], "Guild > "@[6]));
        } else {
            assert(phrase_char_ok(s[0 + n], "Guild > "@[n]));
        }
    }
    if lit_at(s, 0, "Officer > "@) {
        if n >= 9 {
            assert(phrase_char_ok(s[0int + 8], "Officer > "@[8]));
        } else if n == 8 {
            assert(phrase_char_ok(s[0int + 7], "Officer > "@[7]));
        } else if n == 7 {
            assert(phrase_char_ok(s[0int + 8], "Officer > "@[8]));
        } else {
            assert(phrase_char_ok(s[0 + n], "Officer > "@[n]));
        }
    }
}

/// The line the server prints when a member joins the guild reads back as
/// that member joining.  (`\w` accepts every ASCII letter, digit and
/// underscore and rejects the space, as the premises say.)
#[verifier::rlimit(50)]
pub proof fn lemma_join_read_back(name: Seq<char>)
    requires
        plain_name(name),
        !word_char(' '),
    ensures
        parse_line(name + " joined the guild!"@) == Some(Event::Join(name)),
{
    reveal_strlit(" joined the guild!");
    let lit = " joined the guild!"@;
    let s = name + lit;
    let n = name.len() as int;
    assert(s.subrange(0, n) =~= name);
    assert(s[n] == ' ');
    assert(s[n + 1] == 'j');
    assert(s[s.len() - 1] == '!');
    lemma_no_header(s, name);
    assert(!separator_line(s));
    assert(s[0] == name[0]);
    let t = Tail::Plain(Simple::WordThen(Phrase::JoinedGuild));
    lemma_no_rank(t, s, 0, 4);
    assert forall|k: int| 0 <= k < n implies word_char(#[trigger] s[k]) by {
        assert(s[k] == name[k]);
    }
    lemma_run_end_at(s, 0, n);
    assert(s.subrange(n, n + lit.len()) =~= lit);
    lemma_lit_here(s, n, lit);
    assert(cap(s, (0, n)) =~= name);
}

/// The line the server prints when a member leaves the guild reads back as
/// that member leaving.
#[verifier::rlimit(50)]
pub proof fn lemma_leave_read_back(name: Seq<char>)
    requires
        plain_name(name),
        !word_char(' '),
    ensures
        parse_line(name + " left the guild!"@) == Some(Event::Leave(name)),
{
    reveal_strlit(" left the guild!");
    reveal_strlit(" joined the guild!");
    let lit = " left the guild!"@;
    let s = name + lit;
    let n = name.len() as int;
    assert(s.subrange(0, n) =~= name);
    assert(s[n] == ' ');
    assert(s[n + 1] == 'l');
    assert(s[s.len() - 1] == '!');
    lemma_no_header(s, name);
    assert(!separator_line(s));
    assert(s[0] == name[0]);
    assert forall|k: int| 0 <= k < n implies word_char(#[trigger] s[k]) by {
        assert(s[k] == name[k]);
    }
    lemma_run_end_at(s, 0, n);
    let joined = Tail::Plain(Simple::WordThen(Phrase::JoinedGuild));
    lemma_no_rank(joined, s, 0, 4);
    if lit_at(s, n, phrase(Phrase::JoinedGuild)) {
        assert(phrase_char_ok(s[n + 1], phrase(Phrase::JoinedGuild)[1]));
    }
    let t = Tail::Plain(Simple::WordThen(Phrase::LeftGuild));
    lemma_no_rank(t, s, 0, 4);
    assert(s.subrange(n, n + lit.len()) =~= lit);
    lemma_lit_here(s, n, lit);
    assert(cap(s, (0, n)) =~= name);
}

/// A line made of a prefix ending in a space and some content ends in `&`
/// and dashes only when the content does.
proof fn lemma_separator_after_space(p: Seq<char>, c: Seq<char>)
    requires
        p.len() > 0,
        p.last() == ' ',
        separator_line(p + c),
    ensures
        separator_line(c),
{
    let s = p + c;
    let i = choose|i: int|
        0 <= i && i + 1 < s.len() && #[trigger] s[i] == '&' && forall|k: int|
            i < k < s.len() ==> #[trigger] s[k] == '-';
    let q = p.len() as int;
    if i < q - 1 {
        assert(s[q - 1] == '-');
        assert(s[q - 1] == p[q - 1]);
    } else if i == q - 1 {
        assert(s[i] == p[i]);
    } else {
        assert(c[i - q] == '&');
        assert forall|k: int| i - q < k < c.len() implies #[trigger] c[k] == '-' by {
            assert(s[k + q] == c[k]);
        }
    }
}

/// The spans of a guild chat line carrying a plain name and some content.
proof fn lemma_guild_chat_spans(name: Seq<char>, content: Seq<char>)
    requires
        plain_name(name),
        !word_char(':'),
        content.len() > 0,
        no_newline(content, 0, content.len() as int),
    ensures
        chat_message("Guild > "@ + name + ": "@ + content, "Guild > "@) == Some(
            seq![
                (8int, 8 + name.len() as int),
                (10 + name.len() as int, ("Guild > "@ + name + ": "@ + content).len() as int),
            ],
        ),
{
    reveal_strlit("Guild > ");
    reveal_strlit(": ");
    let h = "Guild > "@;
    let s = h + name + ": "@ + content;
    let n = name.len() as int;
    let e = 8 + n;
    let m = e + 2;
    assert(s.subrange(0, 8) =~= h);
    lemma_lit_here(s, 0, h);
    assert(s[8] == name[0]);
    assert(after_player_rank(s, 8) == Some(8int));
    assert forall|k: int| 8 <= k < e implies word_char(#[trigger] s[k]) by {
        assert(s[k] == name[k - 8]);
    }
    assert(s[e] == ':');
    lemma_run_end_at(s, 8, e);
    assert(s.subrange(e, e + 2) =~= ": "@);
    lemma_lit_here(s, e, ": "@);
    assert(after_guild_rank(s, e) == Some(m));
    assert forall|k: int| m <= k < s.len() implies #[trigger] s[k] != '\n' by {
        assert(s[k] == content[k - m]);
    }
}

/// A guild chat line reads back as the message it carries, sender and
/// content, for a content that holds no newline and does not end in `&`
/// and dashes.
#[verifier::rlimit(50)]
pub proof fn lemma_guild_message_read_back(name: Seq<char>, content: Seq<char>)
    requires
        plain_name(name),
        !word_char(':'),
        content.len() > 0,
        no_newline(content, 0, content.len() as int),
        !separator_line(content),
    ensures
        parse_line("Guild > "@ + name + ": "@ + content) == Some(
            Event::Message(name, content, Chat::Guild),
        ),
{
    reveal_strlit("Guild > ");
    reveal_strlit(": ");
    let p = "Guild > "@ + name + ": "@;
    let s = p + content;
    assert(s =~= "Guild > "@ + name + ": "@ + content);
    let n = name.len() as int;
    lemma_guild_chat_spans(name, content);
    if separator_line(s) {
        assert(p.last() == ' ');
        lemma_separator_after_space(p, content);
    }
    assert(cap(s, (8int, 8 + n)) =~= name);
    assert(cap(s, (10 + n, s.len() as int)) =~= content);
}

proof fn lemma_no_inner_rank(x: Simple, s: Seq<char>, b: int, k: int)
    requires
        0 <= b < s.len(),
        s[b] != '[',
    ensures
        rank_then_simple(x, s, b, k) == simple(x, s, b),
    decreases s.len() + 1 - k,
{
    if k <= s.len() {
        assert(!rank_end(s, b, k));
        lemma_no_inner_rank(x, s, b, k + 1);
    }
}

/// A plain name followed by a space and neither `j`, `l` nor `>` starts no
/// join or leave line and no chat header.
proof fn lemma_not_join_or_leave(s: Seq<char>, name: Seq<char>)
    requires
        plain_name(name),
        !word_char(' '),
        name.len() + 1 < s.len(),
        s.subrange(0, name.len() as int) == name,
        s[name.len() as int] == ' ',
        s[name.len() + 1int] != 'j',
        s[name.len() + 1int] != 'l',
        s[name.len() + 1int] != '>',
    ensures
        join_line(s) is None,
        leave_line(s) is None,
        !lit_at(s, 0, "Guild > "@),
        !lit_at(s, 0, "Officer > "@),
{
    reveal_strlit(" joined the guild!");
    reveal_strlit(" left the guild!");
    let n = name.len() as int;
    lemma_no_header(s, name);
    assert forall|k: int| 0 <= k < n implies word_char(#[trigger] s[k]) by {
        assert(s.subrange(0, n)[k] == s[k]);
    }
    assert(s[0] == s.subrange(0, n)[0]);
    lemma_run_end_at(s, 0, n);
    let joined = Tail::Plain(Simple::WordThen(Phrase::JoinedGuild));
    lemma_no_rank(joined, s, 0, 4);
    if lit_at(s, n, phrase(Phrase::JoinedGuild)) {
        assert(phrase_char_ok(s[n + 1], phrase(Phrase::JoinedGuild)[1]));
    }
    let left = Tail::Plain(Simple::WordThen(Phrase::LeftGuild));
    lemma_no_rank(left, s, 0, 4);
    if lit_at(s, n, phrase(Phrase::LeftGuild)) {
        assert(phrase_char_ok(s[n + 1], phrase(Phrase::LeftGuild)[1]));
    }
}

/// The spans of a kick line carrying plain names.
proof fn lemma_kick_spans(name: Seq<char>, by: Seq<char>)
    requires
        plain_name(name),
        plain_name(by),
        !word_char(' '),
        !word_char('!'),
    ensures
        kick_line(name + " was kicked from the guild by "@ + by + "!"@) == Some(
            seq![
                (0int, name.len() as int),
                (name.len() + 30int, name.len() + 30int + by.len()),
            ],
        ),
{
    reveal_strlit(" was kicked from the guild by ");
    reveal_strlit("!");
    let lit = " was kicked from the guild by "@;
    let s = name + lit + by + "!"@;
    let n = name.len() as int;
    let b = n + lit.len();
    let e = b + by.len();
    assert(s[0] == name[0]);
    assert forall|k: int| 0 <= k < n implies word_char(#[trigger] s[k]) by {
        assert(s[k] == name[k]);
    }
    assert(s[n] == ' ');
    lemma_run_end_at(s, 0, n);
    let t = Tail::Ranked(Phrase::KickedBy);
    lemma_no_rank(t, s, 0, 4);
    assert(s.subrange(n, b) =~= lit);
    lemma_lit_here(s, n, lit);
    assert(s[b] == by[0]);
    lemma_no_inner_rank(inner(Phrase::KickedBy), s, b, b + 4);
    assert forall|k: int| b <= k < e implies word_char(#[trigger] s[k]) by {
        assert(s[k] == by[k - b]);
    }
    assert(s[e] == '!');
    lemma_run_end_at(s, b, e);
    assert(s.subrange(e, e + 1) =~= "!"@);
    lemma_lit_here(s, e, "!"@);
}

/// The line the server prints when a member is kicked reads back as that
/// member kicked by that player.
#[verifier::rlimit(50)]
pub proof fn lemma_kick_read_back(name: Seq<char>, by: Seq<char>)
    requires
        plain_name(name),
        plain_name(by),
        !word_char(' '),
        !word_char('!'),
    ensures
        parse_line(name + " was kicked from the guild by "@ + by + "!"@) == Some(
            Event::Kick(name, by),
        ),
{
    reveal_strlit(" was kicked from the guild by ");
    reveal_strlit("!");
    let s = name + " was kicked from the guild by "@ + by + "!"@;
    let n = name.len() as int;
    assert(s.subrange(0, n) =~= name);
    assert(s[n] == ' ');
    assert(s[n + 1] == 'w');
    assert(s[s.len() - 1] == '!');
    assert(!separator_line(s));
    lemma_not_join_or_leave(s, name);
    lemma_kick_spans(name, by);
    assert(cap(s, (0, n)) =~= name);
    assert(cap(s, (n + 30, n + 30 + by.len())) =~= by);
}

/// The last ` to ` after `lo` and up to `hi` starts at `j` when one starts
/// there and none starts later.
proof fn lemma_last_to_at(s: Seq<char>, lo: int, j: int, hi: int)
    requires
        lo + 1 <= j <= hi,
        lit_at(s, j, " to "@),
        forall|k: int| j < k <= hi ==> !lit_at(s, k, " to "@),
    ensures
        last_to(s, lo, hi) == j,
    decreases hi - j,
{
    if hi > j {
        lemma_last_to_at(s, lo, j, hi - 1);
    }
}

/// The phrase of a rank change: promoted or demoted.
pub open spec fn rank_change_phrase(p: Phrase) -> bool {
    p == Phrase::PromotedFrom || p == Phrase::DemotedFrom
}

/// What a rank change line may carry as old and new rank: text without a
/// newline, and a new rank in which no ` to ` follows a space and that does
/// not end in `&` and dashes.
pub open spec fn plain_ranks(from: Seq<char>, to: Seq<char>) -> bool {
    &&& from.len() > 0
    &&& to.len() > 0
    &&& no_newline(from, 0, from.len() as int)
    &&& no_newline(to, 0, to.len() as int)
    &&& !occurs(" "@ + to, " to "@)
    &&& !separator_line(to)
}

/// The spans of a rank change line carrying a plain name.
proof fn lemma_from_to_spans(p: Phrase, name: Seq<char>, from: Seq<char>, to: Seq<char>)
    requires
        rank_change_phrase(p),
        plain_name(name),
        plain_ranks(from, to),
        !word_char(' '),
    ensures
        ({
            let s = name + phrase(p) + from + " to "@ + to;
            let f = (name.len() + phrase(p).len()) as int;
            let j = f + from.len();
            simple(Simple::FromTo(p), s, 0) == Some(
                seq![(0int, name.len() as int), (f, j), (j + 4, s.len() as int)],
            )
        }),
{
    reveal_strlit(" to ");
    reveal_strlit(" was promoted from ");
    reveal_strlit(" was demoted from ");
    reveal_strlit(" ");
    let ph = phrase(p);
    let s = name + ph + from + " to "@ + to;
    let n = name.len() as int;
    let f = n + ph.len();
    let j = f + from.len();
    let len = s.len() as int;
    assert(len == j + 4 + to.len());
    assert(s[0] == name[0]);
    assert forall|k: int| 0 <= k < n implies word_char(#[trigger] s[k]) by {
        assert(s[k] == name[k]);
    }
    assert(s[n] == ' ');
    lemma_run_end_at(s, 0, n);
    assert(s.subrange(n, f) =~= ph);
    lemma_lit_here(s, n, ph);
    assert forall|k: int| f <= k < len implies #[trigger] s[k] != '\n' by {
        if k < j {
            assert(s[k] == from[k - f]);
        } else if k >= j + 4 {
            assert(s[k] == to[k - j - 4]);
        }
    }
    assert(s.subrange(j, j + 4) =~= " to "@);
    lemma_lit_here(s, j, " to "@);
    let t = " "@ + to;
    assert forall|k: int| j < k <= len - 5 implies !lit_at(s, k, " to "@) by {
        if lit_at(s, k, " to "@) {
            assert(phrase_char_ok(s[k + 0], " to "@[0]));
            if k == j + 1 {
                assert(s[j + 1] == 't');
            } else if k == j + 2 {
                assert(s[j + 2] == 'o');
            } else {
                let i = k - j - 3;
                assert forall|m: int| 0 <= m < 4 implies t.subrange(i, i + 4)[m] == " to "@[m] by {
                    assert(phrase_char_ok(s[k + m], " to "@[m]));
                    assert(s[k + m] == t[i + m]);
                }
                assert(t.subrange(i, i + 4) =~= " to "@);
                assert(occurs(t, " to "@));
            }
        }
    }
    lemma_last_to_at(s, f, j, len - 5);
}

/// A rank change line starts with no chat header, join, leave or kick.
proof fn lemma_rank_change_not_earlier(p: Phrase, name: Seq<char>, from: Seq<char>, to: Seq<char>)
    requires
        rank_change_phrase(p),
        plain_name(name),
        plain_ranks(from, to),
        !word_char(' '),
    ensures
        ({
            let s = name + phrase(p) + from + " to "@ + to;
            &&& !separator_line(s)
            &&& chat_message(s, "Guild > "@) is None
            &&& chat_message(s, "Officer > "@) is None
            &&& login_line(s) is None
            &&& logout_line(s) is None
            &&& join_line(s) is None
            &&& leave_line(s) is None
            &&& kick_line(s) is None
        }),
{
    reveal_strlit(" to ");
    reveal_strlit(" was promoted from ");
    reveal_strlit(" was demoted from ");
    reveal_strlit(" was kicked from the guild by ");
    let ph = phrase(p);
    let s = name + ph + from + " to "@ + to;
    let n = name.len() as int;
    let pre = name + ph + from + " to "@;
    assert(s =~= pre + to);
    if separator_line(s) {
        assert(pre.last() == ' ');
        lemma_separator_after_space(pre, to);
    }
    assert(s.subrange(0, n) =~= name);
    assert(s[n] == ' ');
    assert(s[n + 1] == 'w');
    lemma_not_join_or_leave(s, name);
    assert(s[0] == name[0]);
    assert forall|k: int| 0 <= k < n implies word_char(#[trigger] s[k]) by {
        assert(s[k] == name[k]);
    }
    lemma_run_end_at(s, 0, n);
    let kick = Tail::Ranked(Phrase::KickedBy);
    lemma_no_rank(kick, s, 0, 4);
    if lit_at(s, n, phrase(Phrase::KickedBy)) {
        assert(phrase_char_ok(s[n + 5], phrase(Phrase::KickedBy)[5]));
    }
}

/// The line the server prints when a member is promoted reads back as that
/// promotion, for ranks without a newline whose new rank holds no ` to `
/// after a space.
#[verifier::rlimit(50)]
pub proof fn lemma_promotion_read_back(name: Seq<char>, from: Seq<char>, to: Seq<char>)
    requires
        plain_name(name),
        plain_ranks(from, to),
        !word_char(' '),
    ensures
        parse_line(name + " was promoted from "@ + from + " to "@ + to) == Some(
            Event::Promotion(name, from, to),
        ),
{
    reveal_strlit(" was promoted from ");
    reveal_strlit(" to ");
    let p = Phrase::PromotedFrom;
    let s = name + " was promoted from "@ + from + " to "@ + to;
    assert(s == name + phrase(p) + from + " to "@ + to);
    let n = name.len() as int;
    let f = n + 19;
    let j = f + from.len();
    lemma_rank_change_not_earlier(p, name, from, to);
    lemma_from_to_spans(p, name, from, to);
    assert(s[0] == name[0]);
    lemma_no_rank(Tail::Plain(Simple::FromTo(p)), s, 0, 4);
    assert(promote_line(s) == Some(seq![(0int, n), (f, j), (j + 4, s.len() as int)]));
    assert(cap(s, (0, n)) =~= name);
    assert(cap(s, (f, j)) =~= from);
    assert(cap(s, (j + 4, s.len() as int)) =~= to);
}

/// A rank change line with a plain name is no promotion line unless it
/// says promoted.
proof fn lemma_demotion_not_promotion(name: Seq<char>, from: Seq<char>, to: Seq<char>)
    requires
        plain_name(name),
        !word_char(' '),
    ensures
        promote_line(name + " was demoted from "@ + from + " to "@ + to) is None,
{
    reveal_strlit(" was demoted from ");
    reveal_strlit(" was promoted from ");
    let s = name + " was demoted from "@ + from + " to "@ + to;
    let n = name.len() as int;
    assert(s[0] == name[0]);
    assert forall|k: int| 0 <= k < n implies word_char(#[trigger] s[k]) by {
        assert(s[k] == name[k]);
    }
    assert(s[n] == ' ');
    assert(s[n + 5] == 'd');
    lemma_run_end_at(s, 0, n);
    lemma_no_rank(Tail::Plain(Simple::FromTo(Phrase::PromotedFrom)), s, 0, 4);
    if lit_at(s, n, phrase(Phrase::PromotedFrom)) {
        assert(phrase_char_ok(s[n + 5], phrase(Phrase::PromotedFrom)[5]));
    }
}

/// The line the server prints when a member is demoted reads back as that
/// demotion, on the same terms.
#[verifier::rlimit(50)]
pub proof fn lemma_demotion_read_back(name: Seq<char>, from: Seq<char>, to: Seq<char>)
    requires
        plain_name(name),
        plain_ranks(from, to),
        !word_char(' '),
    ensures
        parse_line(name + " was demoted from "@ + from + " to "@ + to) == Some(
            Event::Demotion(name, from, to),
        ),
{
    reveal_strlit(" was demoted from ");
    reveal_strlit(" to ");
    let p = Phrase::DemotedFrom;
    let s = name + " was demoted from "@ + from + " to "@ + to;
    assert(s == name + phrase(p) + from + " to "@ + to);
    let n = name.len() as int;
    let f = n + 18;
    let j = f + from.len();
    lemma_rank_change_not_earlier(p, name, from, to);
    lemma_demotion_not_promotion(name, from, to);
    lemma_from_to_spans(p, name, from, to);
    assert(s[0] == name[0]);
    lemma_no_rank(Tail::Plain(Simple::FromTo(p)), s, 0, 4);
    assert(demote_line(s) == Some(seq![(0int, n), (f, j), (j + 4, s.len() as int)]));
    assert(cap(s, (0, n)) =~= name);
    assert(cap(s, (f, j)) =~= from);
    assert(cap(s, (j + 4, s.len() as int)) =~= to);
}

/// A line that starts with a plain name and ` h` starts none of the lines
/// tried before the mute lines.
proof fn lemma_not_before_mutes(s: Seq<char>, name: Seq<char>)
    requires
        plain_name(name),
        !word_char(' '),
        name.len() + 1 < s.len(),
        s.subrange(0, name.len() as int) == name,
        s[name.len() as int] == ' ',
        s[name.len() + 1int] == 'h',
    ensures
        chat_message(s, "Guild > "@) is None,
        chat_message(s, "Officer > "@) is None,
        login_line(s) is None,
        logout_line(s) is None,
        join_line(s) is None,
        leave_line(s) is None,
        kick_line(s) is None,
        promote_line(s) is None,
        demote_line(s) is None,
{
    reveal_strlit(" was kicked from the guild by ");
    reveal_strlit(" was promoted from ");
    reveal_strlit(" was demoted from ");
    let n = name.len() as int;
    lemma_not_join_or_leave(s, name);
    assert forall|k: int| 0 <= k < n implies word_char(#[trigger] s[k]) by {
        assert(s.subrange(0, n)[k] == s[k]);
    }
    assert(s[0] == s.subrange(0, n)[0]);
    lemma_run_end_at(s, 0, n);
    lemma_no_rank(Tail::Ranked(Phrase::KickedBy), s, 0, 4);
    if lit_at(s, n, phrase(Phrase::KickedBy)) {
        assert(phrase_char_ok(s[n + 1], phrase(Phrase::KickedBy)[1]));
    }
    lemma_no_rank(Tail::Plain(Simple::FromTo(Phrase::PromotedFrom)), s, 0, 4);
    if lit_at(s, n, phrase(Phrase::PromotedFrom)) {
        assert(phrase_char_ok(s[n + 1], phrase(Phrase::PromotedFrom)[1]));
    }
    lemma_no_rank(Tail::Plain(Simple::FromTo(Phrase::DemotedFrom)), s, 0, 4);
    if lit_at(s, n, phrase(Phrase::DemotedFrom)) {
        assert(phrase_char_ok(s[n + 1], phrase(Phrase::DemotedFrom)[1]));
    }
}

/// The spans of a mute line carrying plain names and a plain duration.
proof fn lemma_mute_spans(by: Seq<char>, name: Seq<char>, time: Seq<char>)
    requires
        plain_name(by),
        plain_name(name),
        plain_name(time),
        !word_char(' '),
    ensures
        ({
            let s = by + " has muted "@ + name + " for "@ + time;
            let m = (by.len() + 11) as int;
            let e = m + name.len();
            mute_line(s) == Some(seq![(0int, by.len() as int), (m, e), (e + 5, s.len() as int)])
        }),
{
    reveal_strlit(" has muted ");
    reveal_strlit(" for ");
    let s = by + " has muted "@ + name + " for "@ + time;
    let nb = by.len() as int;
    let m = nb + 11;
    let e = m + name.len();
    let b2 = e + 5;
    let len = s.len() as int;
    assert(len == b2 + time.len());
    assert(s[0] == by[0]);
    assert forall|k: int| 0 <= k < nb implies word_char(#[trigger] s[k]) by {
        assert(s[k] == by[k]);
    }
    assert(s[nb] == ' ');
    lemma_run_end_at(s, 0, nb);
    lemma_no_rank(Tail::Ranked(Phrase::HasMuted), s, 0, 4);
    assert(s.subrange(nb, m) =~= " has muted "@);
    lemma_lit_here(s, nb, " has muted "@);
    assert(s[m] == name[0]);
    lemma_no_inner_rank(inner(Phrase::HasMuted), s, m, m + 4);
    assert forall|k: int| m <= k < e implies word_char(#[trigger] s[k]) by {
        assert(s[k] == name[k - m]);
    }
    assert(s[e] == ' ');
    lemma_run_end_at(s, m, e);
    assert(s.subrange(e, b2) =~= " for "@);
    lemma_lit_here(s, e, " for "@);
    assert forall|k: int| b2 <= k < len implies word_char(#[trigger] s[k]) by {
        assert(s[k] == time[k - b2]);
    }
    lemma_run_end_at(s, b2, len);
    assert(seq![(0int, nb)] + seq![(m, e), (b2, len)] =~= seq![(0int, nb), (m, e), (b2, len)]);
}

/// The line the server prints when a member is muted reads back as that
/// member muted by that player for that time.
#[verifier::rlimit(50)]
pub proof fn lemma_mute_read_back(by: Seq<char>, name: Seq<char>, time: Seq<char>)
    requires
        plain_name(by),
        plain_name(name),
        plain_name(time),
        !word_char(' '),
    ensures
        parse_line(by + " has muted "@ + name + " for "@ + time) == Some(
            Event::Mute(name, by, time),
        ),
{
    reveal_strlit(" has muted ");
    reveal_strlit(" for ");
    let s = by + " has muted "@ + name + " for "@ + time;
    let nb = by.len() as int;
    let m = nb + 11;
    let e = m + name.len();
    assert(s.subrange(0, nb) =~= by);
    assert(s[nb] == ' ');
    assert(s[nb + 1] == 'h');
    assert(s[s.len() - 1] == time[time.len() - 1]);
    assert(!separator_line(s));
    lemma_not_before_mutes(s, by);
    lemma_mute_spans(by, name, time);
    assert(cap(s, (0, nb)) =~= by);
    assert(cap(s, (m, e)) =~= name);
    assert(cap(s, (e + 5, s.len() as int)) =~= time);
}

/// The spans of an unmute line carrying plain names, which is no mute line.
proof fn lemma_unmute_spans(by: Seq<char>, name: Seq<char>)
    requires
        plain_name(by),
        plain_name(name),
        !word_char(' '),
    ensures
        ({
            let s = by + " has unmuted "@ + name;
            &&& mute_line(s) is None
            &&& unmute_line(s) == Some(
                seq![(0int, by.len() as int), ((by.len() + 13) as int, s.len() as int)],
            )
        }),
{
    reveal_strlit(" has unmuted ");
    reveal_strlit(" has muted ");
    let s = by + " has unmuted "@ + name;
    let nb = by.len() as int;
    let m = nb + 13;
    let len = s.len() as int;
    assert forall|k: int| 0 <= k < nb implies word_char(#[trigger] s[k]) by {
        assert(s[k] == by[k]);
    }
    assert(s[0] == by[0]);
    assert(s[nb] == ' ');
    lemma_run_end_at(s, 0, nb);
    lemma_no_rank(Tail::Ranked(Phrase::HasMuted), s, 0, 4);
    if lit_at(s, nb, phrase(Phrase::HasMuted)) {
        assert(phrase_char_ok(s[nb + 5], phrase(Phrase::HasMuted)[5]));
    }
    lemma_no_rank(Tail::Ranked(Phrase::HasUnmuted), s, 0, 4);
    assert(s.subrange(nb, m) =~= " has unmuted "@);
    lemma_lit_here(s, nb, " has unmuted "@);
    assert(s[m] == name[0]);
    lemma_no_inner_rank(inner(Phrase::HasUnmuted), s, m, m + 4);
    assert forall|k: int| m <= k < len implies word_char(#[trigger] s[k]) by {
        assert(s[k] == name[k - m]);
    }
    lemma_run_end_at(s, m, len);
    assert(seq![(0int, nb)] + seq![(m, len)] =~= seq![(0int, nb), (m, len)]);
}

/// The line the server prints when a member is unmuted reads back as that
/// member unmuted by that player.
#[verifier::rlimit(40)]
pub proof fn lemma_unmute_read_back(by: Seq<char>, name: Seq<char>)
    requires
        plain_name(by),
        plain_name(name),
        !word_char(' '),
    ensures
        parse_line(by + " has unmuted "@ + name) == Some(Event::Unmute(name, by)),
{
    reveal_strlit(" has unmuted ");
    let s = by + " has unmuted "@ + name;
    let nb = by.len() as int;
    let m = nb + 13;
    let len = s.len() as int;
    assert(s.subrange(0, nb) =~= by);
    assert(s[nb] == ' ');
    assert(s[nb + 1] == 'h');
    assert(s[len - 1] == name[name.len() - 1]);
    assert(!separator_line(s));
    lemma_not_before_mutes(s, by);
    lemma_unmute_spans(by, name);
    assert(cap(s, (0, nb)) =~= by);
    assert(cap(s, (m, len)) =~= name);
}

/// A run of word characters that starts at `i` stops at a space.
proof fn lemma_run_stops_at_space(s: Seq<char>, i: int, j: int)
    requires
        0 <= i <= j < s.len(),
        s[j] == ' ',
        !word_char(' '),
    ensures
        i <= run_end(s, i) <= j,
{
    lemma_run_end(s, i);
}

/// After `by has muted ` the word `the` and ` gu` follow: no member mute.
proof fn lemma_guild_mute_not_member(s: Seq<char>, by: Seq<char>)
    requires
        plain_name(by),
        !word_char(' '),
        by.len() + 17 < s.len(),
        s.subrange(0, by.len() as int) == by,
        s.subrange(by.len() as int, by.len() + 17int) == " has muted the gu"@,
    ensures
        mute_line(s) is None,
        unmute_line(s) is None,
{
    reveal_strlit(" has muted the gu");
    reveal_strlit(" has muted ");
    reveal_strlit(" has unmuted ");
    reveal_strlit(" for ");
    let nb = by.len() as int;
    let w = s.subrange(nb, nb + 17);
    assert forall|k: int| 0 <= k < nb implies word_char(#[trigger] s[k]) by {
        assert(s.subrange(0, nb)[k] == s[k]);
    }
    assert(s[0] == s.subrange(0, nb)[0]);
    assert(s[nb] == w[0]);
    lemma_run_end_at(s, 0, nb);
    lemma_no_rank(Tail::Ranked(Phrase::HasMuted), s, 0, 4);
    lemma_no_rank(Tail::Ranked(Phrase::HasUnmuted), s, 0, 4);
    assert(s[nb + 5] == w[5]);
    if lit_at(s, nb, phrase(Phrase::HasUnmuted)) {
        assert(phrase_char_ok(s[nb + 5], phrase(Phrase::HasUnmuted)[5]));
    }
    let m = nb + 11;
    assert(s[m] == w[11]);
    assert(s[m + 1] == w[12]);
    assert(s[m + 2] == w[13]);
    assert(s[m + 3] == w[14]);
    assert(s[m + 4] == w[15]);
    lemma_no_inner_rank(inner(Phrase::HasMuted), s, m, m + 4);
    lemma_run_stops_at_space(s, m, m + 3);
    let e = run_end(s, m);
    if m < e && lit_at(s, e, phrase(Phrase::For)) {
        assert(phrase_char_ok(s[e + 0], phrase(Phrase::For)[0]));
        assert(phrase_char_ok(s[e + 1], phrase(Phrase::For)[1]));
    }
}

/// After `by has unmuted ` the word `the` and ` gu` follow: no member
/// mute or unmute.
proof fn lemma_guild_unmute_not_member(s: Seq<char>, by: Seq<char>)
    requires
        plain_name(by),
        !word_char(' '),
        by.len() + 17 < s.len(),
        s.subrange(0, by.len() as int) == by,
        s.subrange(by.len() as int, by.len() + 17int) == " has unmuted the "@,
    ensures
        mute_line(s) is None,
        unmute_line(s) is None,
{
    reveal_strlit(" has unmuted the ");
    reveal_strlit(" has muted ");
    reveal_strlit(" has unmuted ");
    let nb = by.len() as int;
    let w = s.subrange(nb, nb + 17);
    assert forall|k: int| 0 <= k < nb implies word_char(#[trigger] s[k]) by {
        assert(s.subrange(0, nb)[k] == s[k]);
    }
    assert(s[0] == s.subrange(0, nb)[0]);
    assert(s[nb] == w[0]);
    lemma_run_end_at(s, 0, nb);
    lemma_no_rank(Tail::Ranked(Phrase::HasMuted), s, 0, 4);
    lemma_no_rank(Tail::Ranked(Phrase::HasUnmuted), s, 0, 4);
    assert(s[nb + 5] == w[5]);
    if lit_at(s, nb, phrase(Phrase::HasMuted)) {
        assert(phrase_char_ok(s[nb + 5], phrase(Phrase::HasMuted)[5]));
    }
    let m = nb + 13;
    assert(s[m] == w[13]);
    assert(s[m + 3] == w[16]);
    lemma_no_inner_rank(inner(Phrase::HasUnmuted), s, m, m + 4);
    lemma_run_stops_at_space(s, m, m + 3);
}

/// The spans of a guild mute line carrying a plain name and duration.
proof fn lemma_guild_mute_spans(by: Seq<char>, time: Seq<char>)
    requires
        plain_name(by),
        plain_name(time),
        !word_char(' '),
    ensures
        ({
            let s = by + " has muted the guild chat for "@ + time;
            guild_mute_line(s) == Some(
                seq![(0int, by.len() as int), ((by.len() + 30) as int, s.len() as int)],
            )
        }),
{
    reveal_strlit(" has muted the guild chat for ");
    let ph = " has muted the guild chat for "@;
    let s = by + ph + time;
    let nb = by.len() as int;
    let b2 = nb + 30;
    let len = s.len() as int;
    assert forall|k: int| 0 <= k < nb implies word_char(#[trigger] s[k]) by {
        assert(s[k] == by[k]);
    }
    assert(s[0] == by[0]);
    assert(s[nb] == ' ');
    lemma_run_end_at(s, 0, nb);
    let t = Tail::Plain(Simple::WordPhraseWord(Phrase::GuildChatMutedFor));
    lemma_no_rank(t, s, 0, 4);
    assert(s.subrange(nb, b2) =~= ph);
    lemma_lit_here(s, nb, ph);
    assert forall|k: int| b2 <= k < len implies word_char(#[trigger] s[k]) by {
        assert(s[k] == time[k - b2]);
    }
    lemma_run_end_at(s, b2, len);
}

/// The line the server prints when the guild chat is muted reads back as
/// that, with who muted it and for how long.
#[verifier::rlimit(50)]
pub proof fn lemma_guild_mute_read_back(by: Seq<char>, time: Seq<char>)
    requires
        plain_name(by),
        plain_name(time),
        !word_char(' '),
    ensures
        parse_line(by + " has muted the guild chat for "@ + time) == Some(
            Event::GuildMute(by, time),
        ),
{
    reveal_strlit(" has muted the guild chat for ");
    reveal_strlit(" has muted the gu");
    let s = by + " has muted the guild chat for "@ + time;
    let nb = by.len() as int;
    let len = s.len() as int;
    assert(s.subrange(0, nb) =~= by);
    assert(s.subrange(nb, nb + 17) =~= " has muted the gu"@);
    assert(s[nb] == ' ');
    assert(s[nb + 1] == 'h');
    assert(s[len - 1] == time[time.len() - 1]);
    assert(!separator_line(s));
    lemma_not_before_mutes(s, by);
    lemma_guild_mute_not_member(s, by);
    lemma_guild_mute_spans(by, time);
    assert(cap(s, (0, nb)) =~= by);
    assert(cap(s, (nb + 30, len)) =~= time);
}

/// The spans of a guild unmute line carrying a plain name, which is no
/// guild mute line.
proof fn lemma_guild_unmute_spans(by: Seq<char>)
    requires
        plain_name(by),
        !word_char(' '),
    ensures
        ({
            let s = by + " has unmuted the guild chat!"@;
            &&& guild_mute_line(s) is None
            &&& guild_unmute_line(s) == Some(seq![(0int, by.len() as int)])
        }),
{
    reveal_strlit(" has unmuted the guild chat!");
    reveal_strlit(" has muted the guild chat for ");
    let ph = " has unmuted the guild chat!"@;
    let s = by + ph;
    let nb = by.len() as int;
    let len = s.len() as int;
    assert forall|k: int| 0 <= k < nb implies word_char(#[trigger] s[k]) by {
        assert(s[k] == by[k]);
    }
    assert(s[0] == by[0]);
    assert(s[nb] == ' ');
    assert(s[nb + 5] == 'u');
    lemma_run_end_at(s, 0, nb);
    let gm = Tail::Plain(Simple::WordPhraseWord(Phrase::GuildChatMutedFor));
    lemma_no_rank(gm, s, 0, 4);
    if lit_at(s, nb, phrase(Phrase::GuildChatMutedFor)) {
        assert(phrase_char_ok(s[nb + 5], phrase(Phrase::GuildChatMutedFor)[5]));
    }
    let t = Tail::Plain(Simple::WordThen(Phrase::GuildChatUnmuted));
    lemma_no_rank(t, s, 0, 4);
    assert(s.subrange(nb, len) =~= ph);
    lemma_lit_here(s, nb, ph);
}

/// The line the server prints when the guild chat is unmuted reads back as
/// that, with who unmuted it.
#[verifier::rlimit(50)]
pub proof fn lemma_guild_unmute_read_back(by: Seq<char>)
    requires
        plain_name(by),
        !word_char(' '),
    ensures
        parse_line(by + " has unmuted the guild chat!"@) == Some(Event::GuildUnmute(by)),
{
    reveal_strlit(" has unmuted the guild chat!");
    reveal_strlit(" has unmuted the ");
    let s = by + " has unmuted the guild chat!"@;
    let nb = by.len() as int;
    let len = s.len() as int;
    assert(s.subrange(0, nb) =~= by);
    assert(s.subrange(nb, nb + 17) =~= " has unmuted the "@);
    assert(s[nb] == ' ');
    assert(s[nb + 1] == 'h');
    assert(s[len - 1] == '!');
    assert(!separator_line(s));
    lemma_not_before_mutes(s, by);
    lemma_guild_unmute_not_member(s, by);
    lemma_guild_unmute_spans(by);
    assert(cap(s, (0, nb)) =~= by);
}

/// The spans of an officer chat line carrying a plain name and some content.
proof fn lemma_officer_chat_spans(name: Seq<char>, content: Seq<char>)
    requires
        plain_name(name),
        !word_char(':'),
        content.len() > 0,
        no_newline(content, 0, content.len() as int),
    ensures
        chat_message("Officer > "@ + name + ": "@ + content, "Officer > "@) == Some(
            seq![
                (10int, 10 + name.len() as int),
                (12 + name.len() as int, ("Officer > "@ + name + ": "@ + content).len() as int),
            ],
        ),
        chat_message("Officer > "@ + name + ": "@ + content, "Guild > "@) is None,
{
    reveal_strlit("Officer > ");
    reveal_strlit("Guild > ");
    reveal_strlit(": ");
    let h = "Officer > "@;
    let s = h + name + ": "@ + content;
    let n = name.len() as int;
    let e = 10 + n;
    let m = e + 2;
    if lit_at(s, 0, "Guild > "@) {
        assert(phrase_char_ok(s[0int + 0], "Guild > "@[0]));
    }
    assert(s.subrange(0, 10) =~= h);
    lemma_lit_here(s, 0, h);
    assert(s[10] == name[0]);
    assert(after_player_rank(s, 10) == Some(10int));
    assert forall|k: int| 10 <= k < e implies word_char(#[trigger] s[k]) by {
        assert(s[k] == name[k - 10]);
    }
    assert(s[e] == ':');
    lemma_run_end_at(s, 10, e);
    assert(s.subrange(e, e + 2) =~= ": "@);
    lemma_lit_here(s, e, ": "@);
    assert(after_guild_rank(s, e) == Some(m));
    assert forall|k: int| m <= k < s.len() implies #[trigger] s[k] != '\n' by {
        assert(s[k] == content[k - m]);
    }
}

/// An officer chat line reads back as the message it carries, on the same
/// terms as a guild chat line.
#[verifier::rlimit(50)]
pub proof fn lemma_officer_message_read_back(name: Seq<char>, content: Seq<char>)
    requires
        plain_name(name),
        !word_char(':'),
        content.len() > 0,
        no_newline(content, 0, content.len() as int),
        !separator_line(content),
    ensures
        parse_line("Officer > "@ + name + ": "@ + content) == Some(
            Event::Message(name, content, Chat::Officer),
        ),
{
    reveal_strlit("Officer > ");
    reveal_strlit(": ");
    let p = "Officer > "@ + name + ": "@;
    let s = p + content;
    assert(s =~= "Officer > "@ + name + ": "@ + content);
    let n = name.len() as int;
    lemma_officer_chat_spans(name, content);
    if separator_line(s) {
        assert(p.last() == ' ');
        lemma_separator_after_space(p, content);
    }
    assert(cap(s, (10int, 10 + n)) =~= name);
    assert(cap(s, (12 + n, s.len() as int)) =~= content);
}

/// A `Guild > ` line with a plain name and a phrase that starts with a
/// space and then neither `[` nor a word character is no chat message.
proof fn lemma_guild_notice_not_message(s: Seq<char>, name: Seq<char>)
    requires
        plain_name(name),
        !word_char(' '),
        s.len() > 10 + name.len(),
        s.subrange(0, 8) == "Guild > "@,
        s.subrange(8, 8 + name.len() as int) == name,
        s[8 + name.len() as int] == ' ',
        s[9 + name.len() as int] != '[',
    ensures
        chat_message(s, "Guild > "@) is None,
        chat_message(s, "Officer > "@) is None,
{
    reveal_strlit("Guild > ");
    reveal_strlit("Officer > ");
    let n = name.len() as int;
    let e = 8 + n;
    assert(s[0] == s.subrange(0, 8)[0]);
    if lit_at(s, 0, "Officer > "@) {
        assert(phrase_char_ok(s[0int + 0], "Officer > "@[0]));
    }
    assert(s[8] == s.subrange(8, e)[0]);
    assert(s[8] == name[0]);
    assert forall|k: int| 8 <= k < e implies word_char(#[trigger] s[k]) by {
        assert(s.subrange(8, e)[k - 8] == s[k]);
    }
    lemma_run_end_at(s, 8, e);
}

/// The spans of the login and logout lines carrying a plain name.
proof fn lemma_login_spans(name: Seq<char>)
    requires
        plain_name(name),
        !word_char(' '),
    ensures
        login_line("Guild > "@ + name + " joined."@) == Some(seq![(8int, 8 + name.len() as int)]),
        login_line("Guild > "@ + name + " left."@) is None,
        logout_line("Guild > "@ + name + " left."@) == Some(seq![(8int, 8 + name.len() as int)]),
{
    reveal_strlit("Guild > ");
    reveal_strlit(" joined.");
    reveal_strlit(" left.");
    let n = name.len() as int;
    let e = 8 + n;
    let s = "Guild > "@ + name + " joined."@;
    assert(s.subrange(0, 8) =~= "Guild > "@);
    lemma_lit_here(s, 0, "Guild > "@);
    assert(s[8] == name[0]);
    assert forall|k: int| 8 <= k < e implies word_char(#[trigger] s[k]) by {
        assert(s[k] == name[k - 8]);
    }
    assert(s[e] == ' ');
    lemma_run_end_at(s, 8, e);
    assert(s.subrange(e, s.len() as int) =~= " joined."@);
    lemma_lit_here(s, e, " joined."@);
    let t = "Guild > "@ + name + " left."@;
    assert(t.subrange(0, 8) =~= "Guild > "@);
    lemma_lit_here(t, 0, "Guild > "@);
    assert(t[8] == name[0]);
    assert forall|k: int| 8 <= k < e implies word_char(#[trigger] t[k]) by {
        assert(t[k] == name[k - 8]);
    }
    assert(t[e] == ' ');
    assert(t[e + 1] == 'l');
    lemma_run_end_at(t, 8, e);
    if lit_at(t, e, phrase(Phrase::JoinedShort)) {
        assert(phrase_char_ok(t[e + 1], phrase(Phrase::JoinedShort)[1]));
    }
    assert(t.subrange(e, t.len() as int) =~= " left."@);
    lemma_lit_here(t, e, " left."@);
}

/// The line the server prints when a guild member logs in reads back as
/// that member logging in.
#[verifier::rlimit(50)]
pub proof fn lemma_login_read_back(name: Seq<char>)
    requires
        plain_name(name),
        !word_char(' '),
    ensures
        parse_line("Guild > "@ + name + " joined."@) == Some(Event::Login(name)),
{
    reveal_strlit("Guild > ");
    reveal_strlit(" joined.");
    let s = "Guild > "@ + name + " joined."@;
    let e = 8 + name.len() as int;
    assert(s.subrange(0, 8) =~= "Guild > "@);
    assert(s.subrange(8, e) =~= name);
    assert(s[e] == ' ');
    assert(s[e + 1] == 'j');
    assert(s[s.len() - 1] == '.');
    assert(!separator_line(s));
    lemma_guild_notice_not_message(s, name);
    lemma_login_spans(name);
    assert(cap(s, (8int, e)) =~= name);
}

/// The line the server prints when a guild member logs out reads back as
/// that member logging out.
#[verifier::rlimit(50)]
pub proof fn lemma_logout_read_back(name: Seq<char>)
    requires
        plain_name(name),
        !word_char(' '),
    ensures
        parse_line("Guild > "@ + name + " left."@) == Some(Event::Logout(name)),
{
    reveal_strlit("Guild > ");
    reveal_strlit(" left.");
    let s = "Guild > "@ + name + " left."@;
    let e = 8 + name.len() as int;
    assert(s.subrange(0, 8) =~= "Guild > "@);
    assert(s.subrange(8, e) =~= name);
    assert(s[e] == ' ');
    assert(s[e + 1] == 'l');
    assert(s[s.len() - 1] == '.');
    assert(!separator_line(s));
    lemma_guild_notice_not_message(s, name);
    lemma_login_spans(name);
    assert(cap(s, (8int, e)) =~= name);
}

} // verus!
