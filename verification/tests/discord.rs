use bridge::chat::{Chat, FromMinecraft};
use bridge::chat_command::{answer_reaction, ChatCommand, ChatCommandResponse};
use bridge::commands::{Context, MinecraftCommand, RunCommand};
use bridge::config::Channels;
use bridge::discord::{avatar_url, head_url, Delivery};
use bridge::events::{ChatEvent, GuildEvent, Moderation, RawChatEvent};
use bridge::autocomplete::Usernames;
use bridge::commands::SlashCommandResponse;
use bridge::inbound::{author_line, display_name, message_step, plan_message, relayed_chat, MessageStep};
use bridge::interactions::{command_closing, command_opening, found_answer, legacy_command_embed, InteractionReply};
use bridge::reactions::Reaction;
use bridge::relay::{apply_roster, forward, online_notice, relay, spaced_duration, BotState, BridgeEvent, Roster};
use bridge::sanitizer::is_rank_char;
use bridge::status::{offline_status, status_notices, Status, StopCause};
use bridge::text::{is_white_space, word_character};

fn s(x: &str) -> String {
    x.to_string()
}

fn context() -> Context {
    Context { bot: s("neytwoa"), guild_channel: 1, officer_channel: 2, version: s("0.1.0") }
}

fn channel_text(d: &Delivery) -> (Chat, Option<String>) {
    match d {
        Delivery::ChannelEmbed { chat, embed } => (*chat, embed.description.clone()),
        other => panic!("expected a channel embed, got {other:?}"),
    }
}

#[test]
fn avatar_urls() {
    assert_eq!(avatar_url("neyoa"), "https://mc-heads.net/avatar/neyoa/512");
    assert_eq!(head_url("Bob"), "https://mc-heads.net/avatar/Bob/512");
}

#[test]
fn disconnect_is_announced_once() {
    let first = relay(BotState::Online, &FromMinecraft::Disconnect(s("kicked")));
    assert_eq!(first.state, BotState::Offline);
    assert_eq!(first.deliveries.len(), 2);
    let (chat, d) = channel_text(&first.deliveries[1]);
    assert_eq!(chat, Chat::Officer);
    assert_eq!(
        d.as_deref(),
        Some("I have been disconnected from the server, attempting to reconnect\nReason: `kicked`")
    );
    let second = relay(first.state, &FromMinecraft::Disconnect(s("again")));
    assert_eq!(second.state, BotState::Offline);
    assert!(second.deliveries.is_empty());
}

#[test]
fn connect_announces_in_both_chats() {
    let r = relay(BotState::Offline, &FromMinecraft::Connect(s("Bridge")));
    assert_eq!(r.state, BotState::Online);
    assert_eq!(r.deliveries.len(), 2);
    for d in &r.deliveries {
        match d {
            Delivery::ChannelEmbed { embed, .. } => {
                assert_eq!(embed.author.as_deref(), Some("Minecraft Bot is Connected"));
                assert_eq!(embed.description.as_deref(), Some("Logged in as `Bridge`"));
            }
            other => panic!("{other:?}"),
        }
    }
}

#[test]
fn messages_go_through_webhooks_and_are_remembered() {
    let r = relay(BotState::Online, &FromMinecraft::Message(s("neyoa"), s("hi"), Chat::Officer));
    assert!(matches!(&r.roster, Some(Roster::Add(n)) if n == "neyoa"));
    match &r.deliveries[..] {
        [Delivery::WebhookText { chat, user, content }] => {
            assert_eq!(*chat, Chat::Officer);
            assert_eq!(user, "neyoa");
            assert_eq!(content, "hi");
        }
        other => panic!("{other:?}"),
    }
}

#[test]
fn kicks_differ_per_chat() {
    let r = relay(BotState::Online, &FromMinecraft::Kick(s("neyoa"), s("boss")));
    assert!(matches!(&r.roster, Some(Roster::Remove(n)) if n == "neyoa"));
    assert_eq!(channel_text(&r.deliveries[0]).1.as_deref(), Some("`neyoa` was kicked from the guild"));
    assert_eq!(
        channel_text(&r.deliveries[1]).1.as_deref(),
        Some("`neyoa` was kicked from the guild by `boss`")
    );
    match &r.deliveries[0] {
        Delivery::ChannelEmbed { embed, .. } => {
            assert_eq!(embed.author.as_deref(), Some("Member Kicked!"));
            assert_eq!(embed.author_icon.as_deref(), Some("https://mc-heads.net/avatar/neyoa/512"));
        }
        _ => unreachable!(),
    }
}

#[test]
fn mutes_go_to_officers_only() {
    let r = relay(BotState::Online, &FromMinecraft::Mute(s("neyoa"), s("boss"), s("1d")));
    assert_eq!(r.deliveries.len(), 1);
    assert_eq!(
        channel_text(&r.deliveries[0]),
        (Chat::Officer, Some(s("`neyoa` has been muted for `1d` by `boss`")))
    );
    let g = relay(BotState::Online, &FromMinecraft::GuildMute(s("boss"), s("1d")));
    assert_eq!(channel_text(&g.deliveries[0]).1.as_deref(), Some("Guild Chat has been muted for `1d`"));
    assert!(relay(BotState::Online, &FromMinecraft::Raw(s("x"))).deliveries.is_empty());
}

#[test]
fn bridge_events_become_payloads() {
    assert_eq!(BridgeEvent::Start(s("bot")).into_payload(), FromMinecraft::Connect(s("bot")));
    assert_eq!(BridgeEvent::End(s("why")).into_payload(), FromMinecraft::Disconnect(s("why")));
}

#[test]
fn online_notice_in_both_chats() {
    let v = online_notice();
    assert_eq!(v.len(), 2);
    match &v[0] {
        Delivery::ChannelEmbed { chat, embed } => {
            assert_eq!(*chat, Chat::Guild);
            assert_eq!(embed.author.as_deref(), Some("Chat bridge is Online"));
        }
        other => panic!("{other:?}"),
    }
}

#[test]
fn forwarded_events() {
    let toggle = forward(&ChatEvent::Toggle { member: s("neyoa"), online: false });
    match &toggle[..] {
        [Delivery::WebhookEmbed { chat, user, embed }] => {
            assert_eq!(*chat, Chat::Guild);
            assert_eq!(user, "neyoa");
            assert_eq!(embed.description.as_deref(), Some("neyoa left."));
            assert_eq!(embed.colour, 0xf04a47);
        }
        other => panic!("{other:?}"),
    }
    let kick = forward(&ChatEvent::GuildEvent(GuildEvent::Kick { member: s("neyoa"), by: s("boss") }));
    assert_eq!(kick.len(), 2);
    assert_eq!(channel_text(&kick[0]).1.as_deref(), Some("`neyoa` was kicked by `boss`"));
    let gm = forward(&ChatEvent::Moderation(Moderation::Mute { member: None, by: s("boss"), time: s("1h") }));
    assert_eq!(gm.len(), 2);
    assert_eq!(
        channel_text(&gm[1]).1.as_deref(),
        Some("The guild chat has been muted by `boss` for `1 h`")
    );
    let pm = forward(&ChatEvent::Moderation(Moderation::Unmute { member: Some(s("neyoa")), by: s("boss") }));
    assert_eq!(channel_text(&pm[0]), (Chat::Officer, Some(s("`neyoa` has been unmuted by `boss`"))));
    assert!(forward(&ChatEvent::Unknown(s("hello"))).is_empty());
}

#[test]
fn status_notices_per_chat() {
    let v = status_notices(&Status::Disconnected(s("timeout")), 42);
    assert_eq!(
        channel_text(&v[0]).1.as_deref(),
        Some("I have been kicked from the server, attempting to reconnect")
    );
    assert_eq!(channel_text(&v[1]).1.as_deref(), Some("Reason: timeout"));
    let off = status_notices(&Status::Offline(s("boom")), 7);
    assert_eq!(channel_text(&off[0]).1, None);
    assert_eq!(channel_text(&off[1]).1.as_deref(), Some("```boom```"));
    match &off[1] {
        Delivery::ChannelEmbed { embed, .. } => assert_eq!(embed.timestamp, Some(7)),
        _ => unreachable!(),
    }
    let on = status_notices(&Status::Connected(s("Bridge")), 1);
    assert_eq!(channel_text(&on[0]).1.as_deref(), Some("Connected to `todo` as `Bridge`"));
}

#[test]
fn reactions_have_emojis() {
    assert_eq!(Reaction::TooLong.emoji(), "📏");
    assert_eq!(Reaction::Muted.description(), "I am currently muted ingame");
    assert_eq!(Reaction::all().len(), 8);
}

#[test]
fn chat_command_cleans_and_cuts() {
    let (c, issues) = ChatCommand::new(s("ney\u{1F600}oa"), "x".repeat(300), Chat::Guild).unwrap();
    assert_eq!(c.author, "neyoa");
    assert_eq!(c.message.len(), 250 - 5);
    assert_eq!(issues, vec![Reaction::IllegalCharacters, Reaction::TooLong]);
    let ctx = context();
    let text = c.get_command(&ctx).unwrap().text();
    assert_eq!(text.len(), 256);
    assert!(matches!(
        ChatCommand::new(s("\u{1F600}"), s("hi"), Chat::Guild),
        Err(Reaction::EmptyField)
    ));
}

#[test]
fn chat_command_feedback() {
    let ctx = context();
    let (c, issues) = ChatCommand::new(s("neyoa"), s("hello"), Chat::Officer).unwrap();
    assert!(issues.is_empty());
    let echo = RawChatEvent::new("Officer > [MVP] neytwoa [Staff]: neyoa: hello");
    assert!(matches!(c.check_event(&ctx, &echo), Some(ChatCommandResponse::Success)));
    let muted = RawChatEvent::new("You're currently guild muted for 2h!");
    assert!(matches!(c.check_event(&ctx, &muted), Some(ChatCommandResponse::Failure(Reaction::Muted))));
    let no_officer = RawChatEvent::new("You don't have access to the officer chat!");
    assert!(matches!(
        c.check_event(&ctx, &no_officer),
        Some(ChatCommandResponse::Failure(Reaction::NoPermission))
    ));
    let not_in_guild = RawChatEvent::new("You must be in a guild to use this command!");
    assert!(matches!(
        c.check_event(&ctx, &not_in_guild),
        Some(ChatCommandResponse::Failure(Reaction::NotInGuild))
    ));
    assert!(c.check_event(&ctx, &RawChatEvent::new("Guild > neytwoa: neyoa: hello")).is_none());
    assert_eq!(
        c.get_command(&ctx).unwrap(),
        MinecraftCommand::ChatMessage(s("neyoa"), s("hello"), Chat::Officer)
    );
}

#[test]
fn planning_discord_messages() {
    let channels = Channels { guild: 10, officer: 20 };
    let p = plan_message("neyoa", "hello", 10, &channels);
    assert!(p.reactions.is_empty());
    let o = p.send.unwrap();
    assert_eq!(o.command, "/gc neyoa: hello");
    assert_eq!(o.chat, Chat::Guild);

    let empty = plan_message("neyoa", "\u{1F600}", 10, &channels);
    assert_eq!(empty.reactions, vec![Reaction::EmptyField]);
    assert!(empty.send.is_none());

    let elsewhere = plan_message("neyoa", "hello", 30, &channels);
    assert!(elsewhere.reactions.is_empty() && elsewhere.send.is_none());

    let long = plan_message("neyoa\u{e9}", &"y".repeat(300), 20, &channels);
    assert_eq!(long.reactions, vec![Reaction::IllegalCharacters, Reaction::TooLong]);
    assert_eq!(long.send.unwrap().command.len(), 256);
}

#[test]
fn author_names() {
    assert_eq!(display_name(&Some(s("Nick")), "name"), "Nick");
    assert_eq!(display_name(&None, "name"), "name");
    assert_eq!(author_line("a", Some("b")), "a ≫ b");
    assert_eq!(author_line("a", None), "a");
}

/// Runs a chat command against one line of chat.
fn run_chat(command: &ChatCommand, message: &str) -> ChatCommandResponse {
    let ctx = context();
    command.get_command(&ctx).unwrap();
    command.check_event(&ctx, &RawChatEvent::new(message)).expect("No response was returned")
}

#[test]
fn chat_success() {
    for (chat, message) in [
        (Chat::Guild, "Guild > neytwoa: neyoa: Hello, world!"),
        (Chat::Officer, "Officer > neytwoa: neyoa: Hello, world!"),
    ] {
        let (c, issues) = ChatCommand::new(s("neyoa"), s("Hello, world!"), chat).unwrap();
        assert!(issues.is_empty());
        assert!(run_chat(&c, message).is_success());
    }
}

#[test]
fn chat_failures() {
    for (chat, message, reaction) in [
        (Chat::Guild, "You're currently guild muted for 29d 23h 59m 59s!", Reaction::Muted),
        (Chat::Guild, "You're currently guild muted for 23h 59m 59s!", Reaction::Muted),
        (Chat::Guild, "You're currently guild muted for 59m 59s!", Reaction::Muted),
        (Chat::Guild, "You're currently guild muted for 59s!", Reaction::Muted),
        (Chat::Officer, "You don't have access to the officer chat!", Reaction::NoPermission),
        (Chat::Guild, "You must be in a guild to use this command!", Reaction::NotInGuild),
    ] {
        let (c, _) = ChatCommand::new(s("neyoa"), s("Hello, world!"), chat).unwrap();
        let ChatCommandResponse::Failure(got) = run_chat(&c, message) else {
            panic!("Expected failure")
        };
        assert_eq!(got, reaction);
    }
}

#[test]
fn empty_field() {
    for (author, message) in [("😀", "Hello, world!"), ("neyoa", "😀")] {
        let Err(err) = ChatCommand::new(s(author), s(message), Chat::Guild) else {
            panic!("Expected an empty field")
        };
        assert_eq!(err, Reaction::EmptyField);
    }
}

#[test]
fn trimmed_content() {
    for (author, message) in [("ney😀oa", "Hello, world!"), ("neyoa", "Hello, 😀world!")] {
        let (c, issues) = ChatCommand::new(s(author), s(message), Chat::Guild).unwrap();
        assert_eq!(issues, vec![Reaction::IllegalCharacters]);
        assert!(run_chat(&c, "Guild > neytwoa: neyoa: Hello, world!").is_success());
    }
}

#[test]
fn too_long() {
    for (author, message) in [
        ("a".repeat(256 - 6 - 13 + 1), s("Hello, world!")),
        (s("neyoa"), "a".repeat(256 - 6 - 5 + 1)),
    ] {
        let (_, issues) = ChatCommand::new(author, message, Chat::Guild).unwrap();
        assert_eq!(issues, vec![Reaction::TooLong]);
    }
}

#[test]
fn answers_pick_reactions() {
    assert_eq!(answer_reaction(&Some(ChatCommandResponse::Success)), None);
    assert_eq!(
        answer_reaction(&Some(ChatCommandResponse::Failure(Reaction::Muted))),
        Some(Reaction::Muted)
    );
    assert_eq!(answer_reaction(&None), Some(Reaction::TimedOut));
}

#[test]
fn only_people_in_bridged_channels_are_relayed() {
    let channels = Channels { guild: 10, officer: 20 };
    assert_eq!(relayed_chat(false, 10, &channels), Some(Chat::Guild));
    assert_eq!(relayed_chat(false, 20, &channels), Some(Chat::Officer));
    assert_eq!(relayed_chat(true, 10, &channels), None);
    assert_eq!(relayed_chat(false, 30, &channels), None);
}

#[test]
fn offline_causes() {
    let notices = status_notices(&offline_status(&StopCause::Terminated), 7);
    let (_, officer) = channel_text(&notices[1]);
    assert_eq!(officer, Some(s("```Process terminated by user```")));
    let (_, guild) = channel_text(&notices[0]);
    assert_eq!(guild, None);
    let panic = status_notices(&offline_status(&StopCause::Panic(s("boom"))), 7);
    assert_eq!(channel_text(&panic[1]).1, Some(s("```boom```")));
}

#[test]
fn character_classes() {
    assert!(word_character('a') && word_character('_') && !word_character(' '));
    assert!(is_white_space('\u{3000}') && is_white_space('\t') && !is_white_space('x'));
    assert!(is_rank_char('Z') && is_rank_char(' ') && !is_rank_char('_'));
}

#[test]
fn mute_notices_space_the_duration() {
    assert_eq!(spaced_duration("12h"), "12 h");
    assert_eq!(spaced_duration("30d"), "30 d");
    let m = forward(&ChatEvent::Moderation(Moderation::Mute {
        member: Some(s("neyoa")),
        by: s("boss"),
        time: s("12h"),
    }));
    assert_eq!(
        channel_text(&m[0]),
        (Chat::Officer, Some(s("`neyoa` has been muted by `boss` for `12 h`")))
    );
}

#[test]
fn message_steps() {
    let channels = Channels { guild: 10, officer: 20 };
    assert!(matches!(message_step(true, 10, &channels, s("neyoa"), s("hi")), MessageStep::Ignore));
    assert!(matches!(message_step(false, 30, &channels, s("neyoa"), s("hi")), MessageStep::Ignore));
    assert!(matches!(
        message_step(false, 10, &channels, s("neyoa"), s("😀")),
        MessageStep::Refuse(Reaction::EmptyField)
    ));
    match message_step(false, 20, &channels, s("ney😀oa"), s("hi")) {
        MessageStep::Run { command, reactions } => {
            assert_eq!(command.author, "neyoa");
            assert_eq!(command.chat, Chat::Officer);
            assert_eq!(reactions, vec![Reaction::IllegalCharacters]);
        }
        other => panic!("{other:?}"),
    }
}

#[test]
fn interaction_replies() {
    assert!(matches!(command_opening("guild"), InteractionReply::Defer));
    match command_opening("nope") {
        InteractionReply::Respond(e) => assert_eq!(e.description.as_deref(), Some("Command not found")),
        other => panic!("{other:?}"),
    }
    match command_closing(None) {
        InteractionReply::Update(e) => {
            assert_eq!(e.description.as_deref(), Some("Couldn't find any command response after 10s"))
        }
        other => panic!("{other:?}"),
    }
    let refused = SlashCommandResponse::Failure(s("no"));
    assert_eq!(found_answer(Err(refused.clone()), None), Some(refused));
    assert_eq!(
        found_answer(Ok(MinecraftCommand::Execute(s("g list"))), Some(SlashCommandResponse::Timeout)),
        Some(SlashCommandResponse::Timeout)
    );
    assert_eq!(
        legacy_command_embed("x", None).description.as_deref(),
        Some("Command `x` could not be found")
    );
    assert_eq!(
        legacy_command_embed("x", Some(None)).description.as_deref(),
        Some("Something went wrong while trying to run that")
    );
}

#[test]
fn roster_changes_follow_payloads() {
    let mut names = Usernames::new();
    let join = relay(BotState::Online, &FromMinecraft::Join(s("neyoa")));
    apply_roster(&mut names, &join.roster, "bot");
    assert!(names.contains("neyoa"));
    let own = relay(BotState::Online, &FromMinecraft::Login(s("bot")));
    apply_roster(&mut names, &own.roster, "bot");
    assert!(!names.contains("bot"));
    let kick = relay(BotState::Online, &FromMinecraft::Kick(s("neyoa"), s("boss")));
    apply_roster(&mut names, &kick.roster, "bot");
    assert!(!names.contains("neyoa"));
}

#[test]
fn disconnects_are_announced_once_per_connection() {
    let mut state = BotState::Offline;
    let mut notices = Vec::new();
    for p in [
        FromMinecraft::Disconnect(s("a")),
        FromMinecraft::Connect(s("bot")),
        FromMinecraft::Disconnect(s("b")),
        FromMinecraft::Disconnect(s("c")),
    ] {
        let step = relay(state, &p);
        notices.push(step.deliveries.len());
        state = step.state;
    }
    assert_eq!(notices, vec![0, 2, 2, 0]);
}
