//! The reactions put on Discord messages to tell their sender what happened.

use vstd::prelude::*;

verus! {

/// A reaction on a Discord message.
#[derive(Debug, Clone, Copy, PartialEq, Eq, Structural)]
pub enum Reaction {
    IllegalCharacters,
    TooLong,
    EmptyField,
    TimedOut,
    Muted,
    NoPermission,
    NotInGuild,
    Warning,
}

/// The emoji of each reaction.
pub open spec fn emoji_of(r: Reaction) -> Seq<char> {
    match r {
        Reaction::IllegalCharacters => "✂️"@,
        Reaction::TooLong => "📏"@,
        Reaction::EmptyField => "❌"@,
        Reaction::TimedOut => "⏱️"@,
        Reaction::Muted => "🔇"@,
        Reaction::NoPermission => "🔒"@,
        Reaction::NotInGuild => "⁉️"@,
        Reaction::Warning => "⚠️"@,
    }
}

/// What each reaction tells the sender.
pub open spec fn description_of(r: Reaction) -> Seq<char> {
    match r {
        Reaction::IllegalCharacters => "The message or your nickname contains illegal characters"@,
        Reaction::TooLong => "The message is longer than ~250 characters"@,
        Reaction::EmptyField => "The message or your name had no content after cleaning"@,
        Reaction::TimedOut => "Searching for a command response timed out"@,
        Reaction::Muted => "I am currently muted ingame"@,
        Reaction::NoPermission => "I don't have permission to do that"@,
        Reaction::NotInGuild => "I am not in a guild"@,
        Reaction::Warning => "Something went wrong"@,
    }
}

/// Every reaction, in declaration order.
pub open spec fn all_reactions() -> Seq<Reaction> {
    seq![
        Reaction::IllegalCharacters,
        Reaction::TooLong,
        Reaction::EmptyField,
        Reaction::TimedOut,
        Reaction::Muted,
        Reaction::NoPermission,
        Reaction::NotInGuild,
        Reaction::Warning,
    ]
}

impl Reaction {
    /// The emoji the message is reacted with.
    pub fn emoji(&self) -> (e: &'static str)
        ensures
            e@ == emoji_of(*self),
    {
        match self {
            Reaction::IllegalCharacters => "✂️",
            Reaction::TooLong => "📏",
            Reaction::EmptyField => "❌",
            Reaction::TimedOut => "⏱️",
            Reaction::Muted => "🔇",
            Reaction::NoPermission => "🔒",
            Reaction::NotInGuild => "⁉️",
            Reaction::Warning => "⚠️",
        }
    }

    /// What the reaction means.
    pub fn description(&self) -> (d: &'static str)
        ensures
            d@ == description_of(*self),
    {
        match self {
            Reaction::IllegalCharacters => "The message or your nickname contains illegal characters",
            Reaction::TooLong => "The message is longer than ~250 characters",
            Reaction::EmptyField => "The message or your name had no content after cleaning",
            Reaction::TimedOut => "Searching for a command response timed out",
            Reaction::Muted => "I am currently muted ingame",
            Reaction::NoPermission => "I don't have permission to do that",
            Reaction::NotInGuild => "I am not in a guild",
            Reaction::Warning => "Something went wrong",
        }
    }

    /// Every reaction, in declaration order.
    pub fn all() -> (v: Vec<Reaction>)
        ensures
            v@ == all_reactions(),
    {
        let v = vec![
            Reaction::IllegalCharacters,
            Reaction::TooLong,
            Reaction::EmptyField,
            Reaction::TimedOut,
            Reaction::Muted,
            Reaction::NoPermission,
            Reaction::NotInGuild,
            Reaction::Warning,
        ];
        assert(v@ =~= all_reactions());
        v
    }
}

/// Each reaction appears once in [`all_reactions`].
pub proof fn lemma_all_reactions_complete(r: Reaction)
    ensures
        all_reactions().contains(r),
        all_reactions().no_duplicates(),
{
    let s = all_reactions();
    match r {
        Reaction::IllegalCharacters => assert(s[0] == r),
        Reaction::TooLong => assert(s[1] == r),
        Reaction::EmptyField => assert(s[2] == r),
        Reaction::TimedOut => assert(s[3] == r),
        Reaction::Muted => assert(s[4] == r),
        Reaction::NoPermission => assert(s[5] == r),
        Reaction::NotInGuild => assert(s[6] == r),
        Reaction::Warning => assert(s[7] == r),
    }
}


/// Different reactions show different emoji, so the sender can tell them
/// apart.
pub proof fn lemma_emoji_tell_apart(a: Reaction, b: Reaction)
    ensures
        emoji_of(a) == emoji_of(b) ==> a == b,
{
    reveal_strlit("✂️");
    reveal_strlit("📏");
    reveal_strlit("❌");
    reveal_strlit("⏱️");
    reveal_strlit("🔇");
    reveal_strlit("🔒");
    reveal_strlit("⁉️");
    reveal_strlit("⚠️");
    if emoji_of(a) == emoji_of(b) {
        assert(emoji_of(a)[0] == emoji_of(b)[0]);
    }
}

} // verus!
