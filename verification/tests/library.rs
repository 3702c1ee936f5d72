use bridge::autocomplete::{add_username, get_matches, remove_username, Usernames};
use bridge::bridge_config::{Config as BridgeConfig, ConfigVars};
use bridge::commands::{Context, RunCommand, SlashCommandResponse};
use bridge::config::{config, init, parse_u64, ConfigCell, Config, EnvError, EnvVars, IntError};
use bridge::events::{ChatEvent, GuildEvent, RawChatEvent, Response};
use bridge::interactions::{
    find_focused, first_choices, get_int, get_str, is_known_command, reply_of, CommandDataOption,
    OptionData, OptionValue, Wait,
};
use bridge::legacy;
use bridge::mentions::{content_clean, contains_text, no_zero_channel_exec, replace_text, Mention};
use bridge::minecraft::{Backoff, ToMinecraft};
use bridge::registration::{option_settings, registered_description_of, CommandOption, OptionSetting};
use bridge::sanitizer::{clean_rank, clean_string, is_valid_ign};
use bridge::chat::Chat;

fn s(x: &str) -> String {
    x.to_string()
}

fn context() -> Context {
    Context { bot: s("neytwoa"), guild_channel: 1, officer_channel: 2, version: s("0.1.0") }
}

fn vars(token: Option<&str>, port: Option<&str>, guild: Option<&str>) -> EnvVars {
    let var = |v: Option<&str>| match v {
        Some(x) => Ok(s(x)),
        None => Err(EnvError::Missing(s("environment variable not found"))),
    };
    EnvVars {
        discord_token: var(token),
        email: var(None),
        server_address: var(None),
        server_port: var(port),
        guild_channel_id: var(guild),
        officer_channel_id: var(Some("2")),
    }
}

#[test]
fn config_reads_every_variable() {
    let c = Config::new(&vars(Some("tok"), Some("25570"), Some("123")), false).unwrap();
    assert_eq!(c.discord_token, "tok");
    assert_eq!(c.email, None);
    assert_eq!(c.server_address, "mc.hypixel.io");
    assert_eq!(c.server_port, 25570);
    assert_eq!(c.channels.guild, 123);
    assert_eq!(c.channels.officer, 2);
    let d = Config::new(&vars(Some("tok"), None, Some("1")), true).unwrap();
    assert_eq!(d.server_address, "localhost");
    assert_eq!(d.server_port, 25565);
}

#[test]
fn config_errors_come_in_order() {
    assert_eq!(
        Config::new(&vars(None, Some("x"), None), false).unwrap_err(),
        EnvError::Missing(s("environment variable not found"))
    );
    assert_eq!(
        Config::new(&vars(Some("t"), Some("70000"), Some("1")), false).unwrap_err(),
        EnvError::Invalid(s("number too large to fit in target type"))
    );
    assert_eq!(
        Config::new(&vars(Some("t"), None, Some("12a")), false).unwrap_err(),
        EnvError::Invalid(s("invalid digit found in string"))
    );
    assert_eq!(
        Config::new(&vars(Some("t"), None, Some("")), false).unwrap_err(),
        EnvError::Invalid(s("cannot parse integer from empty string"))
    );
}

#[test]
fn parsing_integers() {
    assert_eq!(parse_u64("+42", u64::MAX), Ok(42));
    assert_eq!(parse_u64("18446744073709551615", u64::MAX), Ok(u64::MAX));
    assert_eq!(parse_u64("18446744073709551616", u64::MAX), Err(IntError::PosOverflow));
    assert_eq!(parse_u64("-1", u64::MAX), Err(IntError::InvalidDigit));
    assert_eq!(parse_u64("+", u64::MAX), Err(IntError::InvalidDigit));
    assert_eq!(parse_u64("", u64::MAX), Err(IntError::Empty));
    assert_eq!(parse_u64("65536", 65535), Err(IntError::PosOverflow));
    for text in ["0", "7", "123", "007"] {
        assert_eq!(parse_u64(text, u64::MAX), Ok(text.parse::<u64>().unwrap()));
    }
}

#[test]
fn config_cell_keeps_the_first_config() {
    let mut cell = ConfigCell::new();
    assert!(init(&mut cell, &vars(None, None, None), false).is_err());
    init(&mut cell, &vars(Some("first"), None, Some("5")), false).unwrap();
    init(&mut cell, &vars(Some("second"), None, Some("6")), false).unwrap();
    assert_eq!(config(&cell).discord_token, "first");
}

#[test]
fn bridge_config_requires_values() {
    let mut v = ConfigVars {
        discord_token: Some(s("t")),
        owner_id: Some(s("o")),
        guild_channel_id: Some(s("g")),
        officer_channel_id: Some(s("")),
        staff_role_id: Some(s("r")),
        log_channel_id: Some(s("")),
        dev_server_id: Some(s("d")),
    };
    assert_eq!(
        BridgeConfig::new(&v).unwrap_err(),
        "ENV `OFFICER_CHANNEL_ID` should be set and not be empty"
    );
    v.officer_channel_id = Some(s("f"));
    let c = BridgeConfig::new(&v).unwrap();
    assert_eq!(c.channels.officer, "f");
    assert_eq!(c.log_channel_id, None);
    assert_eq!(c.dev_server_id.as_deref(), Some("d"));
}

#[test]
fn usernames_are_a_set_without_the_bot() {
    let mut names = Usernames::new();
    add_username(&mut names, "neyoa", "Bridge");
    add_username(&mut names, "neyoa", "Bridge");
    add_username(&mut names, "Bridge", "Bridge");
    assert!(names.contains("neyoa"));
    assert!(!names.contains("Bridge"));
    assert_eq!(names.to_vec().len(), 1);
    remove_username(&mut names, "neyoa");
    assert!(!names.contains("neyoa"));
    remove_username(&mut names, "neyoa");
    assert_eq!(names.to_vec().len(), 0);
}

#[test]
fn matches_are_ranked() {
    let mut names = Usernames::new();
    for n in ["neyoa", "neytwoa", "someone", "NEYO"] {
        add_username(&mut names, n, "Bridge");
    }
    let found = get_matches(&names, "neyo");
    assert!(!found.is_empty());
    assert!(found.iter().all(|n| n.to_lowercase().contains('n')));
    assert!(!found.contains(&s("someone")));
    assert!(get_matches(&names, "").is_empty());
    assert!(get_matches(&names, "zzz").is_empty());
}

#[test]
fn equal_scores_are_all_returned() {
    let mut names = Usernames::new();
    for n in ["abcx", "abcy", "abcz", "other"] {
        add_username(&mut names, n, "Bridge");
    }
    let mut found = get_matches(&names, "abc");
    found.sort();
    assert_eq!(found, vec![s("abcx"), s("abcy"), s("abcz")]);
}

#[test]
fn choices_are_capped() {
    let many: Vec<String> = (0..40).map(|i| format!("p{i}")).collect();
    let first = first_choices(many.clone());
    assert_eq!(first.len(), 25);
    assert_eq!(first[24], "p24");
    assert_eq!(first_choices(vec![s("a")]), vec![s("a")]);
}

#[test]
fn focused_inputs() {
    let options = vec![
        OptionValue::Other,
        OptionValue::SubCommand(vec![OptionValue::Focused { input: s("ney"), text: true }]),
    ];
    assert_eq!(find_focused(&options), Some(s("ney")));
    let number = vec![OptionValue::Focused { input: s("3"), text: false }];
    assert_eq!(find_focused(&number), None);
}

#[test]
fn command_names() {
    assert!(is_known_command("guild"));
    assert!(is_known_command("execute"));
    assert!(!is_known_command("ping"));
}

#[test]
fn replies() {
    assert_eq!(reply_of(Wait::Answered(Ok(s("done")))), (s("done"), 0x47f04a));
    assert_eq!(reply_of(Wait::TimedOut), (s("Response not found after `10s`"), 0xf04a47));
    assert_eq!(reply_of(Wait::Closed), (s("Something went wrong"), 0xf04a47));
}

#[test]
fn options_by_name() {
    let options = vec![
        CommandDataOption { name: s("player"), value: Some(OptionData::Text(s("  neyoa "))) },
        CommandDataOption { name: s("duration"), value: Some(OptionData::Integer(3)) },
        CommandDataOption { name: s("player"), value: Some(OptionData::Text(s("other"))) },
    ];
    assert_eq!(get_str(&options, "player"), Some(s("neyoa")));
    assert_eq!(get_int(&options, "duration"), Some(3));
    assert_eq!(get_int(&options, "player"), None);
    assert_eq!(get_str(&options, "missing"), None);
}

#[test]
fn replacing_text() {
    assert_eq!(replace_text("a<@1>b<@1>", "<@1>", "@x"), "a@xb@x");
    assert_eq!(replace_text("aaa", "aa", "b"), "ba");
    assert!(contains_text("hello", "ll"));
    assert!(contains_text("hello", ""));
    assert!(!contains_text("hello", "lo!"));
}

#[test]
fn mentions_are_written_out() {
    let mentions = vec![
        Mention { id: 5, nick: Some(s("Nick")), name: s("user") },
        Mention { id: 6, nick: None, name: s("bob") },
    ];
    let roles = vec![(7u64, Some(s("Staff"))), (8u64, None)];
    let channels = vec![(123456789012345678u64, Some(s("general")))];
    let text = "hi <@5> and <@!6>, <@&7> <@8> see <#123456789012345678> and <#111111111111111111>";
    assert_eq!(
        content_clean(text, &mentions, &roles, &channels),
        "hi @Nick and @bob, @Staff @deleted-role see #general and #deleted-channel"
    );
    assert!(!no_zero_channel_exec("<#000000000000000000>"));
    assert!(no_zero_channel_exec("<#000000000000000001>"));
}

#[test]
fn names_and_cleaning() {
    assert!(is_valid_ign("Neyoa_12"));
    assert!(!is_valid_ign(""));
    assert!(!is_valid_ign("seventeen_chars__"));
    assert!(!is_valid_ign("n e y o a"));
    assert_eq!(clean_string("héllo\u{7}!"), "hllo!");
    assert_eq!(clean_rank("  Ex_pert 2 "), "Expert 2");
}

#[test]
fn default_replies() {
    assert_eq!(
        bridge::commands::default("You must be the Guild Master to use that command!", "neyoa"),
        Some(Err(s("I don't have permission to run that command")))
    );
    assert_eq!(bridge::commands::default("This command is currently disabled.", "x"), Some(Err(s("This command is currently disabled"))));
    assert_eq!(bridge::commands::default("hello", "x"), None);
    assert_eq!(
        bridge::commands::default("[VIP] neyoa is not in your guild!", "NEYOA"),
        Some(Err(s("`neyoa` is not in the guild")))
    );
    assert_eq!(
        bridge::commands::default("Can't find a player by the name of 'neyoa'", "neyoa"),
        Some(Err(s("Could not find player `neyoa`")))
    );
    assert_eq!(bridge::commands::default("[VIP] other is not in your guild!", "neyoa"), None);
}

#[test]
fn classification() {
    let e = RawChatEvent::new("[VIP] neyoa is not in your guild!");
    assert_eq!(
        e.as_chat_event(),
        &ChatEvent::CommandResponse(Response::PlayerNotInGuild(s("neyoa")))
    );
    assert_eq!(e.raw(), "[VIP] neyoa is not in your guild!");
    assert_eq!(
        ChatEvent::classify("neyoa joined the guild!"),
        ChatEvent::GuildEvent(GuildEvent::Join(s("neyoa")))
    );
    assert_eq!(
        ChatEvent::classify("  You do not have permission to use this command!  "),
        ChatEvent::CommandResponse(Response::NoPermission)
    );
    assert_eq!(ChatEvent::classify("whatever"), ChatEvent::Unknown(s("whatever")));
}

#[test]
fn legacy_commands() {
    let ctx = context();
    let p = legacy::PromoteCommand { player: s("neyoa") };
    let bot_out = p.check_event(&ctx, &RawChatEvent::new("You must be in a guild to use this command!"));
    assert!(bot_out.is_none());
    let highest = p.check_event(&ctx, &RawChatEvent::new("\\? neyoa is already the highest rank you've created!"));
    assert_eq!(highest, Some(SlashCommandResponse::Failure(s("`neyoa` is already the highest rank"))));
    let r = legacy::SetRankCommand { player: s("neyoa"), rank: s("Ex pert\u{7}") };
    assert!(r.get_command(&ctx).is_ok());
    let already = r.check_event(&ctx, &RawChatEvent::new("They already have that rank!"));
    assert_eq!(already, Some(SlashCommandResponse::Failure(s("`neyoa` already has rank `Ex pert`"))));
    let u = legacy::UnmuteCommand { player: s("everyone") };
    assert!(u.check_event(&ctx, &RawChatEvent::new("The guild is not muted!")).is_none());
}

#[test]
fn option_registration() {
    let o = CommandOption::Integer { name: s("duration"), description: s("How long"), min: Some(1), max: None, required: true };
    let v = option_settings(&o);
    assert_eq!(v.len(), 5);
    assert!(matches!(v[4], OptionSetting::MinInt(1)));
    let c = CommandOption::Choices {
        name: s("unit"),
        description: s("Unit"),
        choices: vec![(s("Minutes"), s("m")), (s("Hours"), s("h"))],
        required: true,
    };
    let v = option_settings(&c);
    assert_eq!(v.len(), 6);
    assert!(matches!(&v[5], OptionSetting::Choice(a, b) if a == "Hours" && b == "h"));
    assert_eq!(registered_description_of("Kick", true), "Kick (debug)");
    assert_eq!(registered_description_of("Kick", false), "Kick");
}

#[test]
fn reconnect_backoff() {
    let mut b = Backoff::new();
    assert_eq!(b.delay_secs, 5);
    let (event, wait) = b.disconnected(None);
    assert_eq!(wait, 5);
    assert_eq!(b.delay_secs, 10);
    assert!(matches!(event, bridge::relay::BridgeEvent::End(r) if r == "Unknown"));
    let (_, wait) = b.disconnected(Some(s("kicked")));
    assert_eq!(wait, 10);
    b.logged_in();
    assert_eq!(b.delay_secs, 5);
}

#[test]
fn typed_texts() {
    let m = ToMinecraft::Message { user: s("neyoa"), content: s("hi"), chat: Chat::Officer };
    assert_eq!(m.text(), "/oc neyoa: hi");
    assert_eq!(ToMinecraft::Command(s("/g online")).text(), "/g online");
}
