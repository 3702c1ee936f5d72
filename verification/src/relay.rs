//! What the bridge posts on Discord for each payload that comes from
//! Minecraft, and the state of the Minecraft bot as Discord sees it.

use crate::chat::{Chat, Event, FromMinecraft};
use crate::commands::{basic, tick, ticked, Embed, GREEN, RED};
use crate::discord::{
    authored, authored_embed, basic_embed, both_deliveries, embed_with_head, one_delivery,
    split, split_deliveries, title_embed, titled, to_both, to_one, views, with_head, Delivery,
    DeliveryView,
};
use crate::autocomplete::{add_username, added, remove_username, Usernames};
use crate::events::{ChatEvent, GuildEvent, Moderation};
use crate::text::{chars_of, concat, str_to_string, string_of};
use vstd::prelude::*;

verus! {

/// Whether the Minecraft bot is connected, as last announced on Discord.
#[derive(Debug, Clone, Copy, PartialEq, Eq, Structural)]
pub enum BotState {
    /// The next status to announce is a disconnection.
    Online,
    /// The next status to announce is a connection.
    Offline,
}

/// A change to the list of known guild members.
#[derive(Debug, Clone)]
pub enum Roster {
    Add(String),
    Remove(String),
}

/// The mathematical value of a [`Roster`] change.
pub enum RosterView {
    Add(Seq<char>),
    Remove(Seq<char>),
}

impl View for Roster {
    type V = RosterView;

    open spec fn view(&self) -> RosterView {
        match self {
            Roster::Add(m) => RosterView::Add(m@),
            Roster::Remove(m) => RosterView::Remove(m@),
        }
    }
}

/// What one payload from Minecraft leads to.
#[derive(Debug)]
pub struct Relay {
    /// The bot's state afterwards.
    pub state: BotState,
    /// What to post on Discord, in order.
    pub deliveries: Vec<Delivery>,
    /// The change to the known members, if any.
    pub roster: Option<Roster>,
}

/// An event of the Minecraft client itself.
#[derive(Debug, Clone)]
pub enum BridgeEvent {
    /// The client connected to the server; holds the bot's username.
    Start(String),
    /// The client was disconnected from the server; holds the reason.
    End(String),
}

impl BridgeEvent {
    /// The payload that announces the event on Discord.
    pub fn into_payload(self) -> (p: FromMinecraft)
        ensures
            match self {
                BridgeEvent::Start(u) => p@ == Event::Connect(u@),
                BridgeEvent::End(r) => p@ == Event::Disconnect(r@),
            },
    {
        match self {
            BridgeEvent::Start(u) => FromMinecraft::Connect(u),
            BridgeEvent::End(r) => FromMinecraft::Disconnect(r),
        }
    }
}

/// A chat message from Minecraft for Discord.
#[derive(Debug, Clone)]
pub struct Message {
    /// The player who sent it.
    pub user: String,
    pub content: String,
    pub chat: Chat,
}

impl Message {
    pub fn new(user: String, content: String, chat: Chat) -> (m: Message)
        ensures
            m.user == user,
            m.content == content,
            m.chat == chat,
    {
        Message { user, content, chat }
    }
}

/// A payload from Minecraft for Discord, as the first bridge sent it.
#[derive(Debug, Clone)]
pub enum ToDiscord {
    Message(Message),
    Event(BridgeEvent),
}

impl ToDiscord {
    /// A chat message.
    pub fn message(user: String, content: String, chat: Chat) -> (p: ToDiscord)
        ensures
            p matches ToDiscord::Message(m) && m.user == user && m.content == content && m.chat
                == chat,
    {
        ToDiscord::Message(Message::new(user, content, chat))
    }

    /// The payload as the bridge relays it.
    pub fn into_payload(self) -> (p: FromMinecraft)
        ensures
            match self {
                ToDiscord::Message(m) => p@ == Event::Message(m.user@, m.content@, m.chat),
                ToDiscord::Event(BridgeEvent::Start(u)) => p@ == Event::Connect(u@),
                ToDiscord::Event(BridgeEvent::End(r)) => p@ == Event::Disconnect(r@),
            },
    {
        match self {
            ToDiscord::Message(m) => FromMinecraft::Message(m.user, m.content, m.chat),
            ToDiscord::Event(e) => e.into_payload(),
        }
    }
}

/// The description of the disconnection notice.
pub open spec fn disconnected_text() -> Seq<char> {
    "I have been disconnected from the server, attempting to reconnect"@
}

/// The state after a payload.
pub open spec fn next_state(s: BotState, p: Event) -> BotState {
    match p {
        Event::Connect(_) => BotState::Online,
        Event::Disconnect(_) => BotState::Offline,
        _ => s,
    }
}

/// What a payload posts on Discord, given the bot's state before it.
pub open spec fn posts(s: BotState, p: Event) -> Seq<DeliveryView> {
    match p {
        Event::Message(a, c, chat) => seq![DeliveryView::WebhookText { chat, user: a, content: c }],
        Event::Connect(u) => to_both(
            authored("Minecraft Bot is Connected"@, "Logged in as "@ + tick(u), GREEN),
        ),
        Event::Disconnect(r) => if s == BotState::Online {
            split(
                authored("Minecraft Bot has been Disconnected"@, disconnected_text(), RED),
                authored(
                    "Minecraft Bot has been Disconnected"@,
                    disconnected_text() + "\nReason: "@ + tick(r),
                    RED,
                ),
            )
        } else {
            Seq::empty()
        },
        Event::Login(u) => seq![
            DeliveryView::WebhookEmbed {
                chat: Chat::Guild,
                user: u,
                embed: basic(u + " joined."@, GREEN),
            },
        ],
        Event::Logout(u) => seq![
            DeliveryView::WebhookEmbed {
                chat: Chat::Guild,
                user: u,
                embed: basic(u + " left."@, RED),
            },
        ],
        Event::Join(u) => to_both(
            with_head(u, "Member Joined!"@, tick(u) + " joined the guild"@, GREEN),
        ),
        Event::Leave(u) => to_both(with_head(u, "Member Left!"@, tick(u) + " left the guild"@, RED)),
        Event::Kick(u, by) => split(
            with_head(u, "Member Kicked!"@, tick(u) + " was kicked from the guild"@, RED),
            with_head(
                u,
                "Member Kicked!"@,
                tick(u) + " was kicked from the guild by "@ + tick(by),
                RED,
            ),
        ),
        Event::Promotion(u, f, t) => to_both(
            basic(tick(u) + " was promoted from "@ + tick(f) + " to "@ + tick(t), GREEN),
        ),
        Event::Demotion(u, f, t) => to_both(
            basic(tick(u) + " was demoted from "@ + tick(f) + " to "@ + tick(t), RED),
        ),
        Event::Mute(u, by, time) => to_one(
            Chat::Officer,
            basic(tick(u) + " has been muted for "@ + tick(time) + " by "@ + tick(by), RED),
        ),
        Event::Unmute(u, by) => to_one(
            Chat::Officer,
            basic(tick(u) + " has been unmuted by "@ + tick(by), GREEN),
        ),
        Event::GuildMute(by, time) => split(
            basic("Guild Chat has been muted for "@ + tick(time), RED),
            basic("Guild Chat has been muted for "@ + tick(time) + " by "@ + tick(by), RED),
        ),
        Event::GuildUnmute(by) => split(
            basic("Guild Chat has been unmuted"@, GREEN),
            basic("Guild Chat has been unmuted by "@ + tick(by), GREEN),
        ),
        Event::Raw(_) => Seq::empty(),
    }
}

/// How a payload changes the known members: whoever speaks, logs in or out,
/// or joins is added; whoever leaves or is kicked is removed.
pub open spec fn roster_change(p: Event) -> Option<RosterView> {
    match p {
        Event::Message(a, _, _) => Some(RosterView::Add(a)),
        Event::Login(u) => Some(RosterView::Add(u)),
        Event::Logout(u) => Some(RosterView::Add(u)),
        Event::Join(u) => Some(RosterView::Add(u)),
        Event::Leave(u) => Some(RosterView::Remove(u)),
        Event::Kick(u, _) => Some(RosterView::Remove(u)),
        _ => None,
    }
}

/// The value of an optional roster change.
pub open spec fn roster_view(r: Option<Roster>) -> Option<RosterView> {
    match r {
        Some(x) => Some(x@),
        None => None,
    }
}

/// What the bridge posts when it comes online: the same notice in both chats.
pub open spec fn online_posts() -> Seq<DeliveryView> {
    to_both(titled("Chat bridge is Online"@, GREEN))
}

/// The notice posted in both chats when the bridge comes online.
pub fn online_notice() -> (v: Vec<Delivery>)
    ensures
        views(v@) == online_posts(),
{
    both_deliveries(title_embed("Chat bridge is Online", GREEN))
}

/// What the bridge posts when it stops: the same notice in both chats.
pub open spec fn offline_posts() -> Seq<DeliveryView> {
    to_both(titled("Chat bridge is Offline"@, RED))
}

/// The notice posted in both chats when the bridge stops.
pub fn offline_notice() -> (v: Vec<Delivery>)
    ensures
        views(v@) == offline_posts(),
{
    both_deliveries(title_embed("Chat bridge is Offline", RED))
}

/// `tick(a) + b`.
fn tick_then(a: &str, b: &str) -> (r: String)
    ensures
        r@ == tick(a@) + b@,
{
    concat(ticked(a), b)
}

/// `s + tick(a)`.
fn then_tick(s: String, a: &str) -> (r: String)
    ensures
        r@ == s@ + tick(a@),
{
    let t = ticked(a);
    concat(s, t.as_str())
}

fn webhook_embed(user: &String, embed: Embed) -> (v: Vec<Delivery>)
    ensures
        views(v@) == seq![DeliveryView::WebhookEmbed { chat: Chat::Guild, user: user@, embed: embed@ }],
{
    let mut v: Vec<Delivery> = Vec::new();
    v.push(Delivery::WebhookEmbed { chat: Chat::Guild, user: user.clone(), embed });
    assert(views(v@) =~= seq![
        DeliveryView::WebhookEmbed { chat: Chat::Guild, user: user@, embed: embed@ },
    ]);
    v
}

/// What the bridge does with one payload from Minecraft, given the bot's
/// state before it.
pub fn relay(state: BotState, payload: &FromMinecraft) -> (r: Relay)
    ensures
        r.state == next_state(state, payload@),
        views(r.deliveries@) == posts(state, payload@),
        roster_view(r.roster) == roster_change(payload@),
{
    let next = match payload {
        FromMinecraft::Connect(_) => BotState::Online,
        FromMinecraft::Disconnect(_) => BotState::Offline,
        _ => state,
    };
    let roster = match payload {
        FromMinecraft::Message(a, _, _) => Some(Roster::Add(a.clone())),
        FromMinecraft::Login(u) => Some(Roster::Add(u.clone())),
        FromMinecraft::Logout(u) => Some(Roster::Add(u.clone())),
        FromMinecraft::Join(u) => Some(Roster::Add(u.clone())),
        FromMinecraft::Leave(u) => Some(Roster::Remove(u.clone())),
        FromMinecraft::Kick(u, _) => Some(Roster::Remove(u.clone())),
        _ => None,
    };
    let deliveries = match payload {
        FromMinecraft::Message(a, c, chat) => {
            let mut v: Vec<Delivery> = Vec::new();
            v.push(Delivery::WebhookText { chat: *chat, user: a.clone(), content: c.clone() });
            assert(views(v@) =~= seq![
                DeliveryView::WebhookText { chat: *chat, user: a@, content: c@ },
            ]);
            v
        },
        FromMinecraft::Connect(u) => {
            let d = then_tick(str_to_string("Logged in as "), u.as_str());
            both_deliveries(authored_embed("Minecraft Bot is Connected", d, GREEN))
        },
        FromMinecraft::Disconnect(reason) => {
            if state == BotState::Online {
                let title = "Minecraft Bot has been Disconnected";
                let text = "I have been disconnected from the server, attempting to reconnect";
                let officer = then_tick(
                    concat(str_to_string(text), "\nReason: "),
                    reason.as_str(),
                );
                split_deliveries(
                    authored_embed(title, str_to_string(text), RED),
                    authored_embed(title, officer, RED),
                )
            } else {
                let v: Vec<Delivery> = Vec::new();
                assert(views(v@) =~= Seq::<DeliveryView>::empty());
                v
            }
        },
        FromMinecraft::Login(u) => webhook_embed(
            u,
            basic_embed(concat(str_to_string(u.as_str()), " joined."), GREEN),
        ),
        FromMinecraft::Logout(u) => webhook_embed(
            u,
            basic_embed(concat(str_to_string(u.as_str()), " left."), RED),
        ),
        FromMinecraft::Join(u) => both_deliveries(
            embed_with_head(
                u.as_str(),
                "Member Joined!",
                tick_then(u.as_str(), " joined the guild"),
                GREEN,
            ),
        ),
        FromMinecraft::Leave(u) => both_deliveries(
            embed_with_head(u.as_str(), "Member Left!", tick_then(u.as_str(), " left the guild"), RED),
        ),
        FromMinecraft::Kick(u, by) => {
            let officer = then_tick(
                tick_then(u.as_str(), " was kicked from the guild by "),
                by.as_str(),
            );
            split_deliveries(
                embed_with_head(
                    u.as_str(),
                    "Member Kicked!",
                    tick_then(u.as_str(), " was kicked from the guild"),
                    RED,
                ),
                embed_with_head(u.as_str(), "Member Kicked!", officer, RED),
            )
        },
        FromMinecraft::Promotion(u, f, t) => {
            let d = then_tick(
                concat(then_tick(tick_then(u.as_str(), " was promoted from "), f.as_str()), " to "),
                t.as_str(),
            );
            both_deliveries(basic_embed(d, GREEN))
        },
        FromMinecraft::Demotion(u, f, t) => {
            let d = then_tick(
                concat(then_tick(tick_then(u.as_str(), " was demoted from "), f.as_str()), " to "),
                t.as_str(),
            );
            both_deliveries(basic_embed(d, RED))
        },
        FromMinecraft::Mute(u, by, time) => {
            let d = then_tick(
                concat(then_tick(tick_then(u.as_str(), " has been muted for "), time.as_str()), " by "),
                by.as_str(),
            );
            one_delivery(Chat::Officer, basic_embed(d, RED))
        },
        FromMinecraft::Unmute(u, by) => {
            let d = then_tick(tick_then(u.as_str(), " has been unmuted by "), by.as_str());
            one_delivery(Chat::Officer, basic_embed(d, GREEN))
        },
        FromMinecraft::GuildMute(by, time) => {
            let guild = then_tick(str_to_string("Guild Chat has been muted for "), time.as_str());
            let officer = then_tick(
                concat(then_tick(str_to_string("Guild Chat has been muted for "), time.as_str()), " by "),
                by.as_str(),
            );
            split_deliveries(basic_embed(guild, RED), basic_embed(officer, RED))
        },
        FromMinecraft::GuildUnmute(by) => {
            let officer = then_tick(str_to_string("Guild Chat has been unmuted by "), by.as_str());
            split_deliveries(
                basic_embed(str_to_string("Guild Chat has been unmuted"), GREEN),
                basic_embed(officer, GREEN),
            )
        },
        FromMinecraft::Raw(_) => {
            let v: Vec<Delivery> = Vec::new();
            assert(views(v@) =~= Seq::<DeliveryView>::empty());
            v
        },
    };
    Relay { state: next, deliveries, roster }
}

/// Connecting always announces the bot in both chats and makes it online.
pub proof fn lemma_connect_announces(s: BotState, user: Seq<char>)
    ensures
        next_state(s, Event::Connect(user)) == BotState::Online,
        posts(s, Event::Connect(user)).len() == 2,
{
}

/// A disconnection is announced once: after one, the bot is offline, and a
/// second one posts nothing until the bot connects again.
pub proof fn lemma_disconnect_once(s: BotState, first: Seq<char>, second: Seq<char>)
    ensures
        next_state(s, Event::Disconnect(first)) == BotState::Offline,
        posts(next_state(s, Event::Disconnect(first)), Event::Disconnect(second)).len() == 0,
        posts(BotState::Online, Event::Disconnect(first)).len() == 2,
{
}

/// Only connections and disconnections change the bot's state.
pub proof fn lemma_state_only_moves_on_status(s: BotState, p: Event)
    requires
        !(p is Connect),
        !(p is Disconnect),
    ensures
        next_state(s, p) == s,
        posts(s, p) == posts(BotState::Offline, p),
{
}

/// The bot's state after a run of payloads, starting from `s`.
pub open spec fn state_after(s: BotState, ps: Seq<Event>) -> BotState
    decreases ps.len(),
{
    if ps.len() == 0 {
        s
    } else {
        next_state(state_after(s, ps.drop_last()), ps.last())
    }
}

/// Whether the last connection or disconnection in a run is a connection.
pub open spec fn last_connected(ps: Seq<Event>) -> bool
    decreases ps.len(),
{
    if ps.len() == 0 {
        false
    } else {
        match ps.last() {
            Event::Connect(_) => true,
            Event::Disconnect(_) => false,
            _ => last_connected(ps.drop_last()),
        }
    }
}

/// Over any run of payloads that starts with the bot offline, the bot is
/// online exactly when the last connection event was a connection, and a
/// disconnection posts its notices exactly then: two disconnection notices
/// always have a connection between them.
pub proof fn lemma_disconnect_notices(ps: Seq<Event>, reason: Seq<char>)
    ensures
        state_after(BotState::Offline, ps) == (if last_connected(ps) {
            BotState::Online
        } else {
            BotState::Offline
        }),
        posts(state_after(BotState::Offline, ps), Event::Disconnect(reason)).len() > 0
            <==> last_connected(ps),
    decreases ps.len(),
{
    if ps.len() > 0 {
        lemma_disconnect_notices(ps.drop_last(), reason);
    }
}

/// The known members after a change.
pub open spec fn roster_applied(
    names: Set<Seq<char>>,
    change: Option<RosterView>,
    bot: Seq<char>,
) -> Set<Seq<char>> {
    match change {
        Some(RosterView::Add(m)) => added(names, m, bot),
        Some(RosterView::Remove(m)) => names.remove(m),
        None => names,
    }
}

/// Applies a change of the known members; the bot's own name is never added.
pub fn apply_roster(names: &mut Usernames, change: &Option<Roster>, bot: &str)
    ensures
        final(names)@ == roster_applied(old(names)@, roster_view(*change), bot@),
{
    match change {
        Some(Roster::Add(m)) => add_username(names, m.as_str(), bot),
        Some(Roster::Remove(m)) => remove_username(names, m.as_str()),
        None => {},
    }
}

/// After a payload, whoever spoke, logged in or out or joined is known
/// (unless it is the bot), whoever left or was kicked is not, and any other
/// payload leaves the known members as they were.
pub proof fn lemma_members_after_payload(names: Set<Seq<char>>, p: Event, bot: Seq<char>)
    ensures
        ({
            let after = roster_applied(names, roster_change(p), bot);
            &&& p matches Event::Message(a, _, _) ==> (a != bot ==> after.contains(a))
            &&& p matches Event::Login(u) ==> (u != bot ==> after.contains(u))
            &&& p matches Event::Logout(u) ==> (u != bot ==> after.contains(u))
            &&& p matches Event::Join(u) ==> (u != bot ==> after.contains(u))
            &&& p matches Event::Leave(u) ==> !after.contains(u)
            &&& p matches Event::Kick(u, _) ==> !after.contains(u)
            &&& roster_change(p) is None ==> after == names
        }),
{
}

// ---------------------------------------------------------------------------
// Laws of the notices
// ---------------------------------------------------------------------------

/// A promotion is announced in both chats in green and a demotion in red,
/// each naming the member, then the old rank, then the new rank.
pub proof fn lemma_rank_change_notices(s: BotState, u: Seq<char>, f: Seq<char>, t: Seq<char>)
    ensures
        posts(s, Event::Promotion(u, f, t)) == to_both(
            basic(
                "`"@ + u + "`"@ + " was promoted from "@ + "`"@ + f + "`"@ + " to "@ + "`"@ + t
                    + "`"@,
                0x47f04a,
            ),
        ),
        posts(s, Event::Demotion(u, f, t)) == to_both(
            basic(
                "`"@ + u + "`"@ + " was demoted from "@ + "`"@ + f + "`"@ + " to "@ + "`"@ + t
                    + "`"@,
                0xf04a47,
            ),
        ),
{
    assert(tick(u) + " was promoted from "@ + tick(f) + " to "@ + tick(t) =~= "`"@ + u + "`"@
        + " was promoted from "@ + "`"@ + f + "`"@ + " to "@ + "`"@ + t + "`"@);
    assert(tick(u) + " was demoted from "@ + tick(f) + " to "@ + tick(t) =~= "`"@ + u + "`"@
        + " was demoted from "@ + "`"@ + f + "`"@ + " to "@ + "`"@ + t + "`"@);
}

/// Joins and leaves are announced in both chats beside the member's head, a
/// kick in both chats with the kicker named only in the officer chat, and a
/// login or logout in the guild chat under the member's own name.
pub proof fn lemma_member_notices(s: BotState, u: Seq<char>, by: Seq<char>)
    ensures
        posts(s, Event::Join(u)) == to_both(
            with_head(u, "Member Joined!"@, "`"@ + u + "`"@ + " joined the guild"@, 0x47f04a),
        ),
        posts(s, Event::Leave(u)) == to_both(
            with_head(u, "Member Left!"@, "`"@ + u + "`"@ + " left the guild"@, 0xf04a47),
        ),
        posts(s, Event::Kick(u, by)) == split(
            with_head(u, "Member Kicked!"@, "`"@ + u + "`"@ + " was kicked from the guild"@, 0xf04a47),
            with_head(
                u,
                "Member Kicked!"@,
                "`"@ + u + "`"@ + " was kicked from the guild by "@ + "`"@ + by + "`"@,
                0xf04a47,
            ),
        ),
        posts(s, Event::Login(u)) == seq![
            DeliveryView::WebhookEmbed { chat: Chat::Guild, user: u, embed: basic(u + " joined."@, 0x47f04a) },
        ],
        posts(s, Event::Logout(u)) == seq![
            DeliveryView::WebhookEmbed { chat: Chat::Guild, user: u, embed: basic(u + " left."@, 0xf04a47) },
        ],
{
    assert(tick(u) + " joined the guild"@ =~= "`"@ + u + "`"@ + " joined the guild"@);
    assert(tick(u) + " left the guild"@ =~= "`"@ + u + "`"@ + " left the guild"@);
    assert(tick(u) + " was kicked from the guild"@ =~= "`"@ + u + "`"@ + " was kicked from the guild"@);
    assert(tick(u) + " was kicked from the guild by "@ + tick(by) =~= "`"@ + u + "`"@
        + " was kicked from the guild by "@ + "`"@ + by + "`"@);
}

/// A member's mute or unmute is announced in the officer chat only, naming
/// the member, the time and who did it; a guild-chat mute or unmute is
/// announced in both chats, with who did it named only in the officer chat.
pub proof fn lemma_mute_notices(s: BotState, u: Seq<char>, by: Seq<char>, time: Seq<char>)
    ensures
        posts(s, Event::Mute(u, by, time)) == to_one(
            Chat::Officer,
            basic(
                "`"@ + u + "`"@ + " has been muted for "@ + "`"@ + time + "`"@ + " by "@ + "`"@ + by
                    + "`"@,
                0xf04a47,
            ),
        ),
        posts(s, Event::Unmute(u, by)) == to_one(
            Chat::Officer,
            basic("`"@ + u + "`"@ + " has been unmuted by "@ + "`"@ + by + "`"@, 0x47f04a),
        ),
        posts(s, Event::GuildMute(by, time)) == split(
            basic("Guild Chat has been muted for "@ + "`"@ + time + "`"@, 0xf04a47),
            basic(
                "Guild Chat has been muted for "@ + "`"@ + time + "`"@ + " by "@ + "`"@ + by + "`"@,
                0xf04a47,
            ),
        ),
        posts(s, Event::GuildUnmute(by)) == split(
            basic("Guild Chat has been unmuted"@, 0x47f04a),
            basic("Guild Chat has been unmuted by "@ + "`"@ + by + "`"@, 0x47f04a),
        ),
{
    assert(tick(u) + " has been muted for "@ + tick(time) + " by "@ + tick(by) =~= "`"@ + u + "`"@
        + " has been muted for "@ + "`"@ + time + "`"@ + " by "@ + "`"@ + by + "`"@);
    assert(tick(u) + " has been unmuted by "@ + tick(by) =~= "`"@ + u + "`"@
        + " has been unmuted by "@ + "`"@ + by + "`"@);
    assert("Guild Chat has been muted for "@ + tick(time) =~= "Guild Chat has been muted for "@
        + "`"@ + time + "`"@);
    assert("Guild Chat has been muted for "@ + tick(time) + " by "@ + tick(by)
        =~= "Guild Chat has been muted for "@ + "`"@ + time + "`"@ + " by "@ + "`"@ + by + "`"@);
    assert("Guild Chat has been unmuted by "@ + tick(by) =~= "Guild Chat has been unmuted by "@
        + "`"@ + by + "`"@);
}

/// A chat message is relayed as itself under its sender's name to its own
/// chat; a connection is announced in both chats in green; a disconnection
/// is announced, in red and with the reason only in the officer chat, only
/// when the bot was online.
pub proof fn lemma_chat_and_connection_notices(
    s: BotState,
    a: Seq<char>,
    c: Seq<char>,
    chat: Chat,
    r: Seq<char>,
)
    ensures
        posts(s, Event::Message(a, c, chat)) == seq![
            DeliveryView::WebhookText { chat, user: a, content: c },
        ],
        posts(s, Event::Connect(a)) == to_both(
            authored("Minecraft Bot is Connected"@, "Logged in as "@ + "`"@ + a + "`"@, 0x47f04a),
        ),
        posts(BotState::Online, Event::Disconnect(r)) == split(
            authored(
                "Minecraft Bot has been Disconnected"@,
                "I have been disconnected from the server, attempting to reconnect"@,
                0xf04a47,
            ),
            authored(
                "Minecraft Bot has been Disconnected"@,
                "I have been disconnected from the server, attempting to reconnect"@
                    + "\nReason: "@ + "`"@ + r + "`"@,
                0xf04a47,
            ),
        ),
        posts(BotState::Offline, Event::Disconnect(r)).len() == 0,
{
    assert("Logged in as "@ + tick(a) =~= "Logged in as "@ + "`"@ + a + "`"@);
    assert(disconnected_text() + "\nReason: "@ + tick(r)
        =~= "I have been disconnected from the server, attempting to reconnect"@ + "\nReason: "@
        + "`"@ + r + "`"@);
}

// ---------------------------------------------------------------------------
// Classified events
// ---------------------------------------------------------------------------

/// Where the run of ASCII digits that starts at `i` ends.
pub open spec fn digit_end(t: Seq<char>, i: int) -> int
    decreases t.len() - i,
{
    if 0 <= i < t.len() && '0' <= t[i] && t[i] <= '9' {
        digit_end(t, i + 1)
    } else {
        i
    }
}

/// A mute's duration as a notice writes it: its length and its unit, with a
/// space between them (`12h` is written `12 h`).
pub open spec fn spaced_time(t: Seq<char>) -> Seq<char> {
    let d = digit_end(t, 0);
    t.subrange(0, d) + " "@ + t.subrange(d, t.len() as int)
}

/// Computes [`spaced_time`].
pub fn spaced_duration(time: &str) -> (r: String)
    ensures
        r@ == spaced_time(time@),
{
    let v = chars_of(time);
    let n = v.len();
    let mut j: usize = 0;
    while j < n && '0' <= v[j] && v[j] <= '9'
        invariant
            j <= n == v@.len(),
            v@ == time@,
            digit_end(v@, 0) == digit_end(v@, j as int),
        decreases n - j,
    {
        j = j + 1;
    }
    let r = concat(string_of(&v, 0, j), " ");
    let rest = string_of(&v, j, n);
    proof {
        reveal_strlit(" ");
    }
    concat(r, rest.as_str())
}

/// What a classified chat event posts on Discord.
pub open spec fn event_posts(e: ChatEvent) -> Seq<DeliveryView> {
    match e {
        ChatEvent::Message { author, content, chat } => seq![
            DeliveryView::WebhookText { chat, user: author@, content: content@ },
        ],
        ChatEvent::Toggle { member, online } => seq![
            DeliveryView::WebhookEmbed {
                chat: Chat::Guild,
                user: member@,
                embed: if online {
                    basic(member@ + " joined."@, GREEN)
                } else {
                    basic(member@ + " left."@, RED)
                },
            },
        ],
        ChatEvent::GuildEvent(g) => to_both(
            match g {
                GuildEvent::Join(m) => with_head(
                    m@,
                    "Member Joined!"@,
                    tick(m@) + " joined the guild"@,
                    GREEN,
                ),
                GuildEvent::Leave(m) => with_head(m@, "Member Left"@, tick(m@) + " left the guild"@, RED),
                GuildEvent::Kick { member, by } => with_head(
                    member@,
                    "Member Kicked"@,
                    tick(member@) + " was kicked by "@ + tick(by@),
                    RED,
                ),
                GuildEvent::Promotion { member, old_rank, new_rank } => basic(
                    tick(member@) + " has been promoted from "@ + tick(old_rank@) + " to "@ + tick(
                        new_rank@,
                    ),
                    GREEN,
                ),
                GuildEvent::Demotion { member, old_rank, new_rank } => basic(
                    tick(member@) + " has been demoted from "@ + tick(old_rank@) + " to "@ + tick(
                        new_rank@,
                    ),
                    RED,
                ),
            },
        ),
        ChatEvent::Moderation(m) => match m {
            Moderation::Mute { member: Some(x), by, time } => to_one(
                Chat::Officer,
                basic(
                    tick(x@) + " has been muted by "@ + tick(by@) + " for "@ + tick(spaced_time(time@)),
                    RED,
                ),
            ),
            Moderation::Unmute { member: Some(x), by } => to_one(
                Chat::Officer,
                basic(tick(x@) + " has been unmuted by "@ + tick(by@), GREEN),
            ),
            Moderation::Mute { member: None, by, time } => to_both(
                authored(
                    "Guild Muted!"@,
                    "The guild chat has been muted by "@ + tick(by@) + " for "@ + tick(
                        spaced_time(time@),
                    ),
                    RED,
                ),
            ),
            Moderation::Unmute { member: None, by } => to_both(
                authored("Guild Unmuted!"@, "The guild chat has been unmuted by "@ + tick(by@), GREEN),
            ),
        },
        _ => Seq::empty(),
    }
}

/// What the bridge posts on Discord for a classified chat event.
pub fn forward(event: &ChatEvent) -> (v: Vec<Delivery>)
    ensures
        views(v@) == event_posts(*event),
{
    match event {
        ChatEvent::Message { author, content, chat } => {
            let mut v: Vec<Delivery> = Vec::new();
            v.push(
                Delivery::WebhookText { chat: *chat, user: author.clone(), content: content.clone() },
            );
            assert(views(v@) =~= seq![
                DeliveryView::WebhookText { chat: *chat, user: author@, content: content@ },
            ]);
            v
        },
        ChatEvent::Toggle { member, online } => {
            let embed = if *online {
                basic_embed(concat(str_to_string(member.as_str()), " joined."), GREEN)
            } else {
                basic_embed(concat(str_to_string(member.as_str()), " left."), RED)
            };
            webhook_embed(member, embed)
        },
        ChatEvent::GuildEvent(g) => {
            let embed = match g {
                GuildEvent::Join(m) => embed_with_head(
                    m.as_str(),
                    "Member Joined!",
                    tick_then(m.as_str(), " joined the guild"),
                    GREEN,
                ),
                GuildEvent::Leave(m) => embed_with_head(
                    m.as_str(),
                    "Member Left",
                    tick_then(m.as_str(), " left the guild"),
                    RED,
                ),
                GuildEvent::Kick { member, by } => embed_with_head(
                    member.as_str(),
                    "Member Kicked",
                    then_tick(tick_then(member.as_str(), " was kicked by "), by.as_str()),
                    RED,
                ),
                GuildEvent::Promotion { member, old_rank, new_rank } => {
                    let d = then_tick(
                        concat(
                            then_tick(
                                tick_then(member.as_str(), " has been promoted from "),
                                old_rank.as_str(),
                            ),
                            " to ",
                        ),
                        new_rank.as_str(),
                    );
                    basic_embed(d, GREEN)
                },
                GuildEvent::Demotion { member, old_rank, new_rank } => {
                    let d = then_tick(
                        concat(
                            then_tick(
                                tick_then(member.as_str(), " has been demoted from "),
                                old_rank.as_str(),
                            ),
                            " to ",
                        ),
                        new_rank.as_str(),
                    );
                    basic_embed(d, RED)
                },
            };
            both_deliveries(embed)
        },
        ChatEvent::Moderation(m) => match m {
            Moderation::Mute { member: Some(x), by, time } => {
                let spaced = spaced_duration(time.as_str());
                let d = then_tick(
                    concat(then_tick(tick_then(x.as_str(), " has been muted by "), by.as_str()), " for "),
                    spaced.as_str(),
                );
                one_delivery(Chat::Officer, basic_embed(d, RED))
            },
            Moderation::Unmute { member: Some(x), by } => {
                let d = then_tick(tick_then(x.as_str(), " has been unmuted by "), by.as_str());
                one_delivery(Chat::Officer, basic_embed(d, GREEN))
            },
            Moderation::Mute { member: None, by, time } => {
                let spaced = spaced_duration(time.as_str());
                let d = then_tick(
                    concat(
                        then_tick(str_to_string("The guild chat has been muted by "), by.as_str()),
                        " for ",
                    ),
                    spaced.as_str(),
                );
                both_deliveries(authored_embed("Guild Muted!", d, RED))
            },
            Moderation::Unmute { member: None, by } => {
                let d = then_tick(str_to_string("The guild chat has been unmuted by "), by.as_str());
                both_deliveries(authored_embed("Guild Unmuted!", d, GREEN))
            },
        },
        _ => {
            let v: Vec<Delivery> = Vec::new();
            assert(views(v@) =~= Seq::<DeliveryView>::empty());
            v
        },
    }
}


/// Guild events are announced in both chats: a join or a leave beside the
/// member's head, a kick naming who kicked, and a promotion (green) or a
/// demotion (red) naming the old rank first and the new rank last.
pub proof fn lemma_forwarded_guild_events(m: String, by: String, old_rank: String, new_rank: String)
    ensures
        event_posts(ChatEvent::GuildEvent(GuildEvent::Join(m))) == to_both(
            with_head(m@, "Member Joined!"@, "`"@ + m@ + "`"@ + " joined the guild"@, 0x47f04a),
        ),
        event_posts(ChatEvent::GuildEvent(GuildEvent::Leave(m))) == to_both(
            with_head(m@, "Member Left"@, "`"@ + m@ + "`"@ + " left the guild"@, 0xf04a47),
        ),
        event_posts(ChatEvent::GuildEvent(GuildEvent::Kick { member: m, by })) == to_both(
            with_head(
                m@,
                "Member Kicked"@,
                "`"@ + m@ + "`"@ + " was kicked by "@ + "`"@ + by@ + "`"@,
                0xf04a47,
            ),
        ),
        event_posts(
            ChatEvent::GuildEvent(GuildEvent::Promotion { member: m, old_rank, new_rank }),
        ) == to_both(
            basic(
                "`"@ + m@ + "`"@ + " has been promoted from "@ + "`"@ + old_rank@ + "`"@ + " to "@
                    + "`"@ + new_rank@ + "`"@,
                0x47f04a,
            ),
        ),
        event_posts(
            ChatEvent::GuildEvent(GuildEvent::Demotion { member: m, old_rank, new_rank }),
        ) == to_both(
            basic(
                "`"@ + m@ + "`"@ + " has been demoted from "@ + "`"@ + old_rank@ + "`"@ + " to "@
                    + "`"@ + new_rank@ + "`"@,
                0xf04a47,
            ),
        ),
{
    assert(tick(m@) + " joined the guild"@ =~= "`"@ + m@ + "`"@ + " joined the guild"@);
    assert(tick(m@) + " left the guild"@ =~= "`"@ + m@ + "`"@ + " left the guild"@);
    assert(tick(m@) + " was kicked by "@ + tick(by@) =~= "`"@ + m@ + "`"@ + " was kicked by "@
        + "`"@ + by@ + "`"@);
    assert(tick(m@) + " has been promoted from "@ + tick(old_rank@) + " to "@ + tick(new_rank@)
        =~= "`"@ + m@ + "`"@ + " has been promoted from "@ + "`"@ + old_rank@ + "`"@ + " to "@
        + "`"@ + new_rank@ + "`"@);
    assert(tick(m@) + " has been demoted from "@ + tick(old_rank@) + " to "@ + tick(new_rank@)
        =~= "`"@ + m@ + "`"@ + " has been demoted from "@ + "`"@ + old_rank@ + "`"@ + " to "@
        + "`"@ + new_rank@ + "`"@);
}

/// A member's mute or unmute is announced in the officer chat, naming who did
/// it and, for a mute, its length and unit with a space between; a guild-chat
/// mute or unmute is announced in both chats; chat messages go to their own
/// chat under the sender's name, and logins and logouts to the guild chat.
pub proof fn lemma_forwarded_moderation(m: String, by: String, time: String, content: String, chat: Chat, online: bool)
    ensures
        event_posts(ChatEvent::Moderation(Moderation::Mute { member: Some(m), by, time })) == to_one(
            Chat::Officer,
            basic(
                "`"@ + m@ + "`"@ + " has been muted by "@ + "`"@ + by@ + "`"@ + " for "@ + "`"@
                    + spaced_time(time@) + "`"@,
                0xf04a47,
            ),
        ),
        event_posts(ChatEvent::Moderation(Moderation::Unmute { member: Some(m), by })) == to_one(
            Chat::Officer,
            basic("`"@ + m@ + "`"@ + " has been unmuted by "@ + "`"@ + by@ + "`"@, 0x47f04a),
        ),
        event_posts(ChatEvent::Moderation(Moderation::Mute { member: None, by, time })) == to_both(
            authored(
                "Guild Muted!"@,
                "The guild chat has been muted by "@ + "`"@ + by@ + "`"@ + " for "@ + "`"@
                    + spaced_time(time@) + "`"@,
                0xf04a47,
            ),
        ),
        event_posts(ChatEvent::Moderation(Moderation::Unmute { member: None, by })) == to_both(
            authored("Guild Unmuted!"@, "The guild chat has been unmuted by "@ + "`"@ + by@ + "`"@, 0x47f04a),
        ),
        event_posts(ChatEvent::Message { author: m, content, chat }) == seq![
            DeliveryView::WebhookText { chat, user: m@, content: content@ },
        ],
        event_posts(ChatEvent::Toggle { member: m, online }) == seq![
            DeliveryView::WebhookEmbed {
                chat: Chat::Guild,
                user: m@,
                embed: if online {
                    basic(m@ + " joined."@, 0x47f04a)
                } else {
                    basic(m@ + " left."@, 0xf04a47)
                },
            },
        ],
{
    assert(tick(m@) + " has been muted by "@ + tick(by@) + " for "@ + tick(spaced_time(time@))
        =~= "`"@ + m@ + "`"@ + " has been muted by "@ + "`"@ + by@ + "`"@ + " for "@ + "`"@
        + spaced_time(time@) + "`"@);
    assert(tick(m@) + " has been unmuted by "@ + tick(by@) =~= "`"@ + m@ + "`"@
        + " has been unmuted by "@ + "`"@ + by@ + "`"@);
    assert("The guild chat has been muted by "@ + tick(by@) + " for "@ + tick(spaced_time(time@))
        =~= "The guild chat has been muted by "@ + "`"@ + by@ + "`"@ + " for "@ + "`"@
        + spaced_time(time@) + "`"@);
    assert("The guild chat has been unmuted by "@ + tick(by@) =~= "The guild chat has been unmuted by "@
        + "`"@ + by@ + "`"@);
}

/// A mute's duration is written as its leading digits, a space, and the rest:
/// written together again they give the duration back.
pub proof fn lemma_spaced_time(t: Seq<char>)
    ensures
        exists|d: int|
            #![trigger t.subrange(0, d)]
            0 <= d <= t.len() && spaced_time(t) == t.subrange(0, d) + " "@ + t.subrange(
                d,
                t.len() as int,
            ) && (forall|k: int| 0 <= k < d ==> '0' <= #[trigger] t[k] && t[k] <= '9') && (d
                == t.len() || !('0' <= t[d] && t[d] <= '9')),
{
    lemma_digit_end(t, 0);
    let d = digit_end(t, 0);
    assert(spaced_time(t) == t.subrange(0, d) + " "@ + t.subrange(d, t.len() as int));
    assert(0 <= d <= t.len() && (forall|k: int| 0 <= k < d ==> '0' <= #[trigger] t[k] && t[k]
        <= '9') && (d == t.len() || !('0' <= t[d] && t[d] <= '9')));
}

proof fn lemma_digit_end(t: Seq<char>, i: int)
    requires
        0 <= i <= t.len(),
    ensures
        i <= digit_end(t, i) <= t.len(),
        forall|k: int| i <= k < digit_end(t, i) ==> '0' <= #[trigger] t[k] && t[k] <= '9',
        digit_end(t, i) == t.len() || !('0' <= t[digit_end(t, i)] && t[digit_end(t, i)] <= '9'),
    decreases t.len() - i,
{
    if i < t.len() && '0' <= t[i] && t[i] <= '9' {
        lemma_digit_end(t, i + 1);
    }
}

} // verus!
