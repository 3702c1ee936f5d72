//! What the bridge posts on Discord: player heads, embeds, and where each
//! message goes.

use crate::chat::Chat;
use crate::commands::{blank, Embed, EmbedView};
use crate::text::{concat, str_to_string};
use vstd::prelude::*;

verus! {

/// The URL of the head of a player's skin.
pub open spec fn avatar_text(ign: Seq<char>) -> Seq<char> {
    "https://mc-heads.net/avatar/"@ + ign + "/512"@
}

/// The URL of the head of a player's skin.
pub fn avatar_url(ign: &str) -> (u: String)
    ensures
        u@ == avatar_text(ign@),
{
    concat(concat(str_to_string("https://mc-heads.net/avatar/"), ign), "/512")
}

/// The URL of the head of a player's skin, used as a webhook's avatar.
pub fn head_url(user: &str) -> (u: String)
    ensures
        u@ == avatar_text(user@),
{
    avatar_url(user)
}

/// An embed with an author line, a description and a colour.
pub open spec fn authored(author: Seq<char>, description: Seq<char>, colour: u32) -> EmbedView {
    EmbedView { author: Some(author), description: Some(description), ..blank(colour) }
}

/// An embed whose author line is `title` beside the player's head.
pub open spec fn with_head(
    user: Seq<char>,
    title: Seq<char>,
    description: Seq<char>,
    colour: u32,
) -> EmbedView {
    EmbedView {
        author: Some(title),
        author_icon: Some(avatar_text(user)),
        description: Some(description),
        ..blank(colour)
    }
}

/// An embed with only an author line and a colour.
pub open spec fn titled(title: Seq<char>, colour: u32) -> EmbedView {
    EmbedView { author: Some(title), ..blank(colour) }
}

/// An embed with an author line, a description and a colour.
pub fn authored_embed(author: &str, description: String, colour: u32) -> (e: Embed)
    ensures
        e@ == authored(author@, description@, colour),
{
    let mut e = Embed::blank(colour);
    e.author = Some(str_to_string(author));
    e.description = Some(description);
    e
}

/// "Hero" embed, with the player's head beside the title.
pub fn embed_with_head(user: &str, title: &str, description: String, colour: u32) -> (e: Embed)
    ensures
        e@ == with_head(user@, title@, description@, colour),
{
    let mut e = Embed::blank(colour);
    e.author = Some(str_to_string(title));
    e.author_icon = Some(head_url(user));
    e.description = Some(description);
    e
}

/// Basic embed, with just a description and a colour.
pub fn basic_embed(description: String, colour: u32) -> (e: Embed)
    ensures
        e@ == crate::commands::basic(description@, colour),
{
    Embed::described(description, colour)
}

/// Embed with just a title and a colour.
pub fn title_embed(title: &str, colour: u32) -> (e: Embed)
    ensures
        e@ == titled(title@, colour),
{
    let mut e = Embed::blank(colour);
    e.author = Some(str_to_string(title));
    e
}

/// A message to post on Discord.
#[derive(Debug, Clone)]
pub enum Delivery {
    /// Text written through a chat's webhook under the player's name and head.
    WebhookText { chat: Chat, user: String, content: String },
    /// An embed sent through a chat's webhook under the player's name and head.
    WebhookEmbed { chat: Chat, user: String, embed: Embed },
    /// An embed sent by the bot to a chat's channel.
    ChannelEmbed { chat: Chat, embed: Embed },
}

/// The mathematical value of a [`Delivery`].
pub enum DeliveryView {
    WebhookText { chat: Chat, user: Seq<char>, content: Seq<char> },
    WebhookEmbed { chat: Chat, user: Seq<char>, embed: EmbedView },
    ChannelEmbed { chat: Chat, embed: EmbedView },
}

impl View for Delivery {
    type V = DeliveryView;

    open spec fn view(&self) -> DeliveryView {
        match self {
            Delivery::WebhookText { chat, user, content } => DeliveryView::WebhookText {
                chat: *chat,
                user: user@,
                content: content@,
            },
            Delivery::WebhookEmbed { chat, user, embed } => DeliveryView::WebhookEmbed {
                chat: *chat,
                user: user@,
                embed: embed@,
            },
            Delivery::ChannelEmbed { chat, embed } => DeliveryView::ChannelEmbed {
                chat: *chat,
                embed: embed@,
            },
        }
    }
}

/// The values of a list of deliveries.
pub open spec fn views(v: Seq<Delivery>) -> Seq<DeliveryView> {
    v.map_values(|d: Delivery| d@)
}

/// The same embed in both chats' channels.
pub open spec fn to_both(e: EmbedView) -> Seq<DeliveryView> {
    seq![
        DeliveryView::ChannelEmbed { chat: Chat::Guild, embed: e },
        DeliveryView::ChannelEmbed { chat: Chat::Officer, embed: e },
    ]
}

/// One embed in the guild chat's channel and another in the officer chat's.
pub open spec fn split(guild: EmbedView, officer: EmbedView) -> Seq<DeliveryView> {
    seq![
        DeliveryView::ChannelEmbed { chat: Chat::Guild, embed: guild },
        DeliveryView::ChannelEmbed { chat: Chat::Officer, embed: officer },
    ]
}

/// An embed in one chat's channel.
pub open spec fn to_one(chat: Chat, e: EmbedView) -> Seq<DeliveryView> {
    seq![DeliveryView::ChannelEmbed { chat, embed: e }]
}

/// Sends `guild` to the guild chat's channel and `officer` to the officer
/// chat's.
pub fn split_deliveries(guild: Embed, officer: Embed) -> (v: Vec<Delivery>)
    ensures
        views(v@) == split(guild@, officer@),
{
    let mut v: Vec<Delivery> = Vec::new();
    v.push(Delivery::ChannelEmbed { chat: Chat::Guild, embed: guild });
    v.push(Delivery::ChannelEmbed { chat: Chat::Officer, embed: officer });
    assert(views(v@) =~= split(guild@, officer@));
    v
}

/// Sends the same embed to both chats' channels.
pub fn both_deliveries(e: Embed) -> (v: Vec<Delivery>)
    ensures
        views(v@) == to_both(e@),
{
    let e2 = e.duplicate();
    split_deliveries(e, e2)
}

/// Sends an embed to one chat's channel.
pub fn one_delivery(chat: Chat, e: Embed) -> (v: Vec<Delivery>)
    ensures
        views(v@) == to_one(chat, e@),
{
    let mut v: Vec<Delivery> = Vec::new();
    v.push(Delivery::ChannelEmbed { chat, embed: e });
    assert(views(v@) =~= to_one(chat, e@));
    v
}

} // verus!
