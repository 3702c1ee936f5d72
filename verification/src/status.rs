//! The status notices the bridge posts in both chats.

use crate::commands::{blank, tick, ticked, Embed, EmbedView, GREEN, RED, YELLOW};
use crate::discord::{split, split_deliveries, views, Delivery, DeliveryView};
use crate::text::{concat, str_to_string};
use vstd::prelude::*;

verus! {

/// A change of the bridge's status.
#[derive(Debug, Clone)]
pub enum Status {
    /// The bridge has started.
    Online,
    /// The bridge stopped; holds the text of the error that stopped it.
    Offline(String),
    /// The Minecraft bot connected; holds its username.
    Connected(String),
    /// The Minecraft bot was disconnected; holds the reason.
    Disconnected(String),
}

/// What stopped the bridge.  (A configuration error ends the program before
/// any notice is posted, so it is no cause here.)
#[derive(Debug, Clone)]
pub enum StopCause {
    /// The Minecraft client could not start; holds the error's text.
    Join(String),
    /// The process was terminated by the user.
    Terminated,
    /// A task panicked; holds the panic's text.
    Panic(String),
}

/// The text the offline notice gives for a cause.
pub open spec fn cause_text(c: StopCause) -> Seq<char> {
    match c {
        StopCause::Join(e) => e@,
        StopCause::Terminated => "Process terminated by user"@,
        StopCause::Panic(p) => p@,
    }
}

/// The offline status for a cause.
pub fn offline_status(cause: &StopCause) -> (s: Status)
    ensures
        s matches Status::Offline(t) && t@ == cause_text(*cause),
{
    match cause {
        StopCause::Join(e) => Status::Offline(e.clone()),
        StopCause::Terminated => Status::Offline(str_to_string("Process terminated by user")),
        StopCause::Panic(p) => Status::Offline(p.clone()),
    }
}

/// An embed with an author line, a colour and a time.
pub open spec fn stamped(author: Seq<char>, colour: u32, now: u64) -> EmbedView {
    EmbedView { author: Some(author), timestamp: Some(now), ..blank(colour) }
}

/// The notice of a status for the guild chat and for the officer chat, sent at
/// the time `now`.
pub open spec fn status_notice(s: Status, now: u64) -> (EmbedView, EmbedView) {
    match s {
        Status::Online => {
            let e = stamped("Chat Bridge is Online"@, GREEN, now);
            (e, e)
        },
        Status::Offline(cause) => {
            let e = stamped("Chat Bridge is Offline"@, RED, now);
            (e, EmbedView { description: Some("```"@ + cause@ + "```"@), ..e })
        },
        Status::Connected(ign) => {
            let e = EmbedView {
                description: Some("Connected to `todo` as "@ + tick(ign@)),
                ..stamped("Minecraft Bot is Connected"@, GREEN, now)
            };
            (e, e)
        },
        Status::Disconnected(reason) => {
            let e = stamped("Minecraft Bot is Disconnected"@, YELLOW, now);
            (
                EmbedView {
                    description: Some(
                        "I have been kicked from the server, attempting to reconnect"@,
                    ),
                    ..e
                },
                EmbedView { description: Some("Reason: "@ + reason@), ..e },
            )
        },
    }
}

fn stamped_embed(author: &str, colour: u32, now: u64) -> (e: Embed)
    ensures
        e@ == stamped(author@, colour, now),
{
    let mut e = Embed::blank(colour);
    e.author = Some(str_to_string(author));
    e.timestamp = Some(now);
    e
}

/// The status notices, the guild chat's first, sent at the time `now`.
pub fn status_notices(status: &Status, now: u64) -> (v: Vec<Delivery>)
    ensures
        views(v@) == split(status_notice(*status, now).0, status_notice(*status, now).1),
{
    match status {
        Status::Online => {
            let g = stamped_embed("Chat Bridge is Online", GREEN, now);
            let o = stamped_embed("Chat Bridge is Online", GREEN, now);
            split_deliveries(g, o)
        },
        Status::Offline(cause) => {
            let g = stamped_embed("Chat Bridge is Offline", RED, now);
            let mut o = stamped_embed("Chat Bridge is Offline", RED, now);
            o.description = Some(concat(concat(str_to_string("```"), cause.as_str()), "```"));
            split_deliveries(g, o)
        },
        Status::Connected(ign) => {
            let mut g = stamped_embed("Minecraft Bot is Connected", GREEN, now);
            g.description = Some(
                concat(str_to_string("Connected to `todo` as "), ticked(ign.as_str()).as_str()),
            );
            let mut o = stamped_embed("Minecraft Bot is Connected", GREEN, now);
            o.description = Some(
                concat(str_to_string("Connected to `todo` as "), ticked(ign.as_str()).as_str()),
            );
            split_deliveries(g, o)
        },
        Status::Disconnected(reason) => {
            let mut g = stamped_embed("Minecraft Bot is Disconnected", YELLOW, now);
            g.description = Some(
                str_to_string("I have been kicked from the server, attempting to reconnect"),
            );
            let mut o = stamped_embed("Minecraft Bot is Disconnected", YELLOW, now);
            o.description = Some(concat(str_to_string("Reason: "), reason.as_str()));
            split_deliveries(g, o)
        },
    }
}


/// An embed that holds only an author line, a colour, a time and perhaps a
/// description.
pub open spec fn only_author(e: EmbedView, author: Seq<char>, colour: u32, now: u64) -> bool {
    &&& e.author == Some(author)
    &&& e.colour == colour
    &&& e.timestamp == Some(now)
    &&& e.title is None
    &&& e.author_icon is None
    &&& e.fields.len() == 0
    &&& e.footer is None
    &&& e.footer_icon is None
}

/// The bridge coming online is announced in green, the same in both chats,
/// with no description; going offline is announced in red in both chats,
/// with the cause only in the officer chat.  The two notices differ.
pub proof fn lemma_online_offline_notices(now: u64, cause: String)
    ensures
        ({
            let (g, o) = status_notice(Status::Online, now);
            &&& g == o
            &&& only_author(g, "Chat Bridge is Online"@, 0x47f04a, now)
            &&& g.description is None
        }),
        ({
            let (g, o) = status_notice(Status::Offline(cause), now);
            &&& only_author(g, "Chat Bridge is Offline"@, 0xf04a47, now)
            &&& only_author(o, "Chat Bridge is Offline"@, 0xf04a47, now)
            &&& g.description is None
            &&& o.description == Some("```"@ + cause@ + "```"@)
        }),
        status_notice(Status::Online, now).0 != status_notice(Status::Offline(cause), now).0,
{
    reveal_strlit("Chat Bridge is Online");
    reveal_strlit("Chat Bridge is Offline");
    assert("Chat Bridge is Online"@[18] != "Chat Bridge is Offline"@[18]);
}

/// The bot connecting is announced in green in both chats with its name; its
/// disconnection in yellow, with the reason only in the officer chat.
pub proof fn lemma_connection_status_notices(now: u64, ign: String, reason: String)
    ensures
        ({
            let (g, o) = status_notice(Status::Connected(ign), now);
            &&& g == o
            &&& only_author(g, "Minecraft Bot is Connected"@, 0x47f04a, now)
            &&& g.description == Some("Connected to `todo` as "@ + "`"@ + ign@ + "`"@)
        }),
        ({
            let (g, o) = status_notice(Status::Disconnected(reason), now);
            &&& only_author(g, "Minecraft Bot is Disconnected"@, 0xff8c00, now)
            &&& only_author(o, "Minecraft Bot is Disconnected"@, 0xff8c00, now)
            &&& g.description == Some(
                "I have been kicked from the server, attempting to reconnect"@,
            )
            &&& o.description == Some("Reason: "@ + reason@)
        }),
{
    assert("Connected to `todo` as "@ + tick(ign@) =~= "Connected to `todo` as "@ + "`"@ + ign@
        + "`"@);
}

/// The reason an offline notice gives: the cause's own text, or the fixed
/// text for a user's termination.
pub proof fn lemma_offline_causes(e: String)
    ensures
        cause_text(StopCause::Join(e)) == e@,
        cause_text(StopCause::Panic(e)) == e@,
        cause_text(StopCause::Terminated) == "Process terminated by user"@,
{
}

} // verus!
