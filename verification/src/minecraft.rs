//! The Minecraft side of the bridge: what is typed into chat, and how long to
//! wait before reconnecting.

use crate::chat::{prefix_of, Chat};
use crate::relay::BridgeEvent;
use crate::text::{concat, str_to_string};
use vstd::prelude::*;

verus! {

/// A payload from Discord for the Minecraft client.
#[derive(Debug, Clone)]
pub enum ToMinecraft {
    /// A message to write into a chat, under the sender's name.
    Message { user: String, content: String, chat: Chat },
    /// A command to run as it is.
    Command(String),
}

/// The text typed into Minecraft for a payload.
pub open spec fn typed_text(p: ToMinecraft) -> Seq<char> {
    match p {
        ToMinecraft::Message { user, content, chat } => "/"@ + prefix_of(chat) + " "@ + user@
            + ": "@ + content@,
        ToMinecraft::Command(c) => c@,
    }
}

impl ToMinecraft {
    /// A message to write into a chat.
    pub fn message(user: String, content: String, chat: Chat) -> (p: ToMinecraft)
        ensures
            p matches ToMinecraft::Message { user: u, content: c, chat: ch } && u == user && c
                == content && ch == chat,
    {
        ToMinecraft::Message { user, content, chat }
    }

    /// The text typed into Minecraft for this payload.
    pub fn text(&self) -> (t: String)
        ensures
            t@ == typed_text(*self),
    {
        match self {
            ToMinecraft::Message { user, content, chat } => {
                let t = concat(str_to_string("/"), chat.prefix());
                let t = concat(t, " ");
                let t = concat(t, user.as_str());
                let t = concat(t, ": ");
                concat(t, content.as_str())
            },
            ToMinecraft::Command(c) => c.clone(),
        }
    }
}

/// A chat message passed between the two halves of the bridge.
#[derive(Debug, Clone)]
pub struct BridgeMessage {
    pub author: String,
    pub content: String,
    pub chat: Chat,
}

impl BridgeMessage {
    pub fn new(author: String, content: String, chat: Chat) -> (m: BridgeMessage)
        ensures
            m.author == author,
            m.content == content,
            m.chat == chat,
    {
        BridgeMessage { author, content, chat }
    }

    /// The text typed into Minecraft for the message.
    pub fn text(&self) -> (t: String)
        ensures
            t@ == "/"@ + prefix_of(self.chat) + " "@ + self.author@ + ": "@ + self.content@,
    {
        let t = concat(str_to_string("/"), self.chat.prefix());
        let t = concat(t, " ");
        let t = concat(t, self.author.as_str());
        let t = concat(t, ": ");
        concat(t, self.content.as_str())
    }
}

/// The first wait before reconnecting, in seconds; each failed connection
/// waits this much longer than the one before.
pub const RECONNECT_STEP: u64 = 5;

/// How long to wait before the next reconnection.
#[derive(Debug, Clone, Copy, PartialEq, Eq, Structural)]
pub struct Backoff {
    /// The next wait, in seconds.
    pub delay_secs: u64,
}

/// A wait is a positive multiple of the step.
pub open spec fn valid_delay(d: u64) -> bool {
    d >= RECONNECT_STEP && d % RECONNECT_STEP == 0
}

/// The reason given for a disconnection: the server's, or `Unknown`.
pub open spec fn reason_text(reason: Option<String>) -> Seq<char> {
    match reason {
        Some(r) => r@,
        None => "Unknown"@,
    }
}

impl Backoff {
    /// The wait before the first reconnection.
    pub fn new() -> (b: Backoff)
        ensures
            b.delay_secs == RECONNECT_STEP,
    {
        Backoff { delay_secs: RECONNECT_STEP }
    }

    /// A successful login resets the wait.
    pub fn logged_in(&mut self)
        ensures
            final(self).delay_secs == RECONNECT_STEP,
    {
        self.delay_secs = RECONNECT_STEP;
    }

    /// After a disconnection: the event to announce, and how long to wait
    /// before reconnecting; the next wait is one step longer.
    pub fn disconnected(&mut self, reason: Option<String>) -> (r: (BridgeEvent, u64))
        requires
            old(self).delay_secs <= u64::MAX - RECONNECT_STEP,
        ensures
            r.0 matches BridgeEvent::End(x) && x@ == reason_text(reason),
            r.1 == old(self).delay_secs,
            final(self).delay_secs == old(self).delay_secs + RECONNECT_STEP,
    {
        let wait = self.delay_secs;
        self.delay_secs = self.delay_secs + RECONNECT_STEP;
        let text = match reason {
            Some(r) => r,
            None => str_to_string("Unknown"),
        };
        (BridgeEvent::End(text), wait)
    }
}

/// The wait is always a positive multiple of the step: it starts at one
/// step, is reset to one step at login, and grows by one step per
/// disconnection.
pub proof fn lemma_delay_stays_valid(d: u64)
    requires
        valid_delay(d),
        d <= u64::MAX - RECONNECT_STEP,
    ensures
        valid_delay(RECONNECT_STEP),
        valid_delay((d + RECONNECT_STEP) as u64),
{
}


/// A message is typed into its own chat's command, `/gc` for the guild chat
/// and `/oc` for the officer chat, under its sender's name; a command is
/// typed as it is; a disconnection without a reason is told as `Unknown`.
pub proof fn lemma_typed_texts(user: String, content: String, c: String, reason: String)
    ensures
        typed_text(ToMinecraft::Message { user, content, chat: Chat::Guild }) == "/gc "@ + user@
            + ": "@ + content@,
        typed_text(ToMinecraft::Message { user, content, chat: Chat::Officer }) == "/oc "@ + user@
            + ": "@ + content@,
        typed_text(ToMinecraft::Command(c)) == c@,
        reason_text(Some(reason)) == reason@,
        reason_text(None) == "Unknown"@,
{
    reveal_strlit("/");
    reveal_strlit("gc");
    reveal_strlit("oc");
    reveal_strlit(" ");
    reveal_strlit("/gc ");
    reveal_strlit("/oc ");
    assert("/"@ + "gc"@ + " "@ + user@ + ": "@ + content@ =~= "/gc "@ + user@ + ": "@ + content@);
    assert("/"@ + "oc"@ + " "@ + user@ + ": "@ + content@ =~= "/oc "@ + user@ + ": "@ + content@);
}

} // verus!
