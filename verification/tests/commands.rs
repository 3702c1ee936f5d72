use bridge::commands::{Context, MinecraftCommand, RunCommand, SlashCommandResponse, TimeUnit};
use bridge::events::RawChatEvent;
use bridge::execute::ExecuteCommand;
use bridge::guild::{
    DemoteCommand, GuildCommand, InviteCommand, KickCommand, MuteCommand, PromoteCommand,
    SetRankCommand, UnmuteCommand,
};
use bridge::help::HelpCommand;

fn context() -> Context {
    Context {
        bot: "neytwoa".to_string(),
        guild_channel: 1,
        officer_channel: 2,
        version: "0.1.0".to_string(),
    }
}

/// Runs a command against one line of chat, as the command's own checks do.
fn test_command<C: RunCommand<Response = SlashCommandResponse>>(
    command: C,
    message: &str,
) -> SlashCommandResponse {
    let ctx = context();
    if let Err(response) = command.get_command(&ctx) {
        return response;
    }
    command
        .check_event(&ctx, &RawChatEvent::new(message))
        .expect("No response was returned")
}

fn player(p: &str) -> String {
    p.to_string()
}

#[test]
fn execute() {
    assert!(test_command(
        ExecuteCommand {
            command: "help".to_string()
        },
        ""
    )
    .is_embed())
}

#[test]
fn execute_strips_slashes_and_spaces() {
    let ctx = context();
    let c = ExecuteCommand { command: "// g online ".to_string() };
    assert_eq!(c.get_command(&ctx), Ok(MinecraftCommand::Execute("g online".to_string())));
    assert_eq!(MinecraftCommand::Execute("g online".to_string()).text(), "/g online");
}

#[test]
fn execute_shows_the_line_and_its_kind() {
    let ctx = context();
    let c = ExecuteCommand { command: "/g list".to_string() };
    let r = c.check_event(&ctx, &RawChatEvent::new("Guild > neyoa: hi")).unwrap();
    match r {
        SlashCommandResponse::Embed(e) => {
            assert_eq!(e.description.as_deref(), Some("Executing `/g list`"));
            assert_eq!(e.fields.len(), 2);
            assert_eq!(e.fields[0].name, "Output");
            assert_eq!(e.fields[0].value, "```Guild > neyoa: hi```");
            assert_eq!(e.fields[1].name, "Parsed as Guild Message");
            assert_eq!(e.fields[1].value, "```neyoa: hi```");
            assert_eq!(e.colour, 0x47f04a);
        }
        other => panic!("expected an embed, got {other:?}"),
    }
}

#[test]
fn help_answers_with_its_embed() {
    let ctx = context();
    match HelpCommand.get_command(&ctx) {
        Err(SlashCommandResponse::Embed(e)) => {
            assert_eq!(e.title.as_deref(), Some("Bridge Help"));
            assert_eq!(e.fields[0].name, "Reactions");
            assert!(e.fields[0].value.starts_with("`✂️`: The message or your nickname contains illegal characters\n"));
            assert_eq!(e.fields[0].value.lines().count(), 8);
            assert_eq!(e.fields[1].value, "Guild Channel: <#1>\nOfficer Channel: <#2>\nVersion: `0.1.0`");
            assert_eq!(e.footer.as_deref(), Some("Created by neyoa"));
            assert_eq!(e.footer_icon.as_deref(), Some("https://mc-heads.net/avatar/neyoa/512"));
        }
        _ => panic!("help always answers with an embed"),
    }
    assert!(HelpCommand.check_event(&ctx, &RawChatEvent::new("anything")).is_none());
}

#[test]
fn promote_success() {
    let r = test_command(
        PromoteCommand { player: player("neyoa") },
        "[MVP+] neyoa was promoted from Advanced to Expert",
    );
    assert_eq!(
        r,
        SlashCommandResponse::Success("`neyoa` has been promoted from `Advanced` to `Expert`".to_string())
    );
}

#[test]
fn promote_failures() {
    for (p, message) in [
        ("n e y o a", ""),
        ("neyoa", "[MVP+] neyoa is already the highest rank you've created!\n----------------------------------------------------"),
        ("neyoa", "You can only promote up to your own rank!\n----------------------------------------------------"),
        ("neyoa", "[MVP+] neyoa is the guild master so can't be promoted anymore!"),
        ("neyoa", "[MVP+] neyoa is not in your guild!"),
        ("neyoa", "Can't find a player by the name of 'neyoa'"),
        ("neyoa", "You must be the Guild Master to use that command!"),
        ("neyoa", "You must be in a guild to use this command!"),
    ] {
        assert!(test_command(PromoteCommand { player: player(p) }, message).is_failure(), "{message}");
    }
}

#[test]
fn invalid_ign_text() {
    assert_eq!(
        test_command(PromoteCommand { player: player("n e y o a") }, ""),
        SlashCommandResponse::Failure("`n e y o a` is not a valid IGN".to_string())
    );
}

#[test]
fn success() {
    let r = test_command(
        DemoteCommand { player: player("neyoa") },
        "[MVP+] neyoa was demoted from Expert to Advanced",
    );
    assert_eq!(
        r,
        SlashCommandResponse::Success("`neyoa` has been demoted from `Expert` to `Advanced`".to_string())
    );
}

#[test]
fn failures() {
    for (p, message) in [
        ("n e y o a", ""),
        ("neyoa", "[MVP+] neyoa is already the lowest rank you've created!\n----------------------------------------------------"),
        ("neyoa", "You can only demote up to your own rank!\n----------------------------------------------------"),
        ("neyoa", "[MVP+] neyoa is the guild master so can't be demoted!"),
        ("neyoa", "[MVP+] neyoa is not in your guild!"),
        ("neyoa", "Can't find a player by the name of 'neyoa'"),
        ("neyoa", "You must be the Guild Master to use that command!"),
    ] {
        assert!(test_command(DemoteCommand { player: player(p) }, message).is_failure(), "{message}");
    }
}

#[test]
fn a_closing_dash_line_is_not_part_of_the_reply() {
    let e = RawChatEvent::new("You can only demote up to your own rank!\n-----");
    assert_eq!(e.raw(), "You can only demote up to your own rank!\n-----");
    assert_eq!(
        e.as_chat_event(),
        &bridge::events::ChatEvent::Unknown("You can only demote up to your own rank!".to_string())
    );
    let kept = RawChatEvent::new("a\n-x");
    assert_eq!(kept.as_chat_event(), &bridge::events::ChatEvent::Unknown("a\n-x".to_string()));
}

#[test]
fn other_players_do_not_answer() {
    let ctx = context();
    let c = PromoteCommand { player: player("neyoa") };
    let e = RawChatEvent::new("[MVP+] someone was promoted from Advanced to Expert");
    assert!(c.check_event(&ctx, &e).is_none());
}

#[test]
fn setrank_success() {
    for message in [
        "[MVP+] neyoa was promoted from Advanced to Expert",
        "[MVP+] neyoa was demoted from Staff to Expert",
    ] {
        let c = SetRankCommand { player: player("neyoa"), rank: "expert".to_string() };
        assert!(test_command(c, message).is_success());
    }
}

#[test]
fn setrank_failures() {
    for (p, rank, message) in [
        ("n e y o a", "expert", ""),
        ("neyoa", "", " "),
        ("neyoa", "", "#!_9"),
        ("neyoa", "nonexistant", "I couldn't find a rank by the name of 'nonexistant'!\n----------------------------------------------------"),
        ("neyoa", "expert", "They already have that rank!\n----------------------------------------------------"),
        ("neyoa", "expert", "You can only promote up to your own rank!\n----------------------------------------------------"),
        ("neyoa", "expert", "You can only demote up to your own rank!\n----------------------------------------------------"),
        ("neyoa", "expert", "[ADMIN] neyoa is not in your guild!"),
        ("neyoa", "expert", "Can't find a player by the name of 'neyoa'"),
        ("neyoa", "expert", "You must be the Guild Master to use that command!"),
        ("neyoa", "expert", "You must be in a guild to use this command!"),
    ] {
        let c = SetRankCommand { player: player(p), rank: rank.to_string() };
        assert!(test_command(c, message).is_failure(), "{message}");
    }
}

#[test]
fn setrank_cleans_the_rank() {
    let ctx = context();
    let c = SetRankCommand { player: player("neyoa"), rank: "  Ex_pert!  ".to_string() };
    assert_eq!(
        c.get_command(&ctx),
        Ok(MinecraftCommand::SetRank("neyoa".to_string(), "Expert".to_string()))
    );
    let empty = SetRankCommand { player: player("neyoa"), rank: "#!_".to_string() };
    assert_eq!(
        empty.get_command(&ctx),
        Err(SlashCommandResponse::Failure("`#!_` is not a valid guild rank".to_string()))
    );
}

#[test]
fn setrank_unknown_rank_text() {
    let r = test_command(
        SetRankCommand { player: player("neyoa"), rank: "nonexistant".to_string() },
        "I couldn't find a rank by the name of 'nonexistant'!",
    );
    assert_eq!(r, SlashCommandResponse::Failure("Couldn't find rank `nonexistant`".to_string()));
}

#[test]
fn unmute_success() {
    for (p, message) in [
        ("neyoa", "[MVP+] neytwoa has unmuted [MVP+] neyoa"),
        ("everyone", "[MVP+] neytwoa has unmuted the guild chat!"),
    ] {
        assert!(test_command(UnmuteCommand { player: player(p) }, message).is_success(), "{message}");
    }
}

#[test]
fn unmute_failures() {
    for (p, message) in [
        ("n e y o a", ""),
        ("neyoa", "This player is not muted!"),
        ("neyoa", "neyoa is not in your guild!"),
        ("neyoa", "Can't find a player by the name of 'neyoa'"),
        ("neyoa", "Your guild rank does not have permission to use this!"),
        ("neyoa", "You must be in a guild to use this command!"),
    ] {
        assert!(test_command(UnmuteCommand { player: player(p) }, message).is_failure(), "{message}");
    }
}

#[test]
fn unmute_by_someone_else_is_no_answer() {
    let ctx = context();
    let c = UnmuteCommand { player: player("neyoa") };
    assert!(c.check_event(&ctx, &RawChatEvent::new("[MVP+] other has unmuted neyoa")).is_none());
}

#[test]
fn mute_command_text() {
    let ctx = context();
    let c = MuteCommand { player: player("neyoa"), duration: 12, unit: TimeUnit::Hour };
    let cmd = c.get_command(&ctx).unwrap();
    assert_eq!(cmd.text(), "/g mute neyoa 12h");
    let bad = MuteCommand { player: player("neyoa"), duration: -3, unit: TimeUnit::Day };
    assert_eq!(
        bad.get_command(&ctx),
        Err(SlashCommandResponse::Failure("`-3` is not a valid mute duration".to_string()))
    );
}

#[test]
fn mute_answers() {
    let ok = test_command(
        MuteCommand { player: player("neyoa"), duration: 12, unit: TimeUnit::Hour },
        "[MVP+] neytwoa has muted [VIP] neyoa for 12h",
    );
    assert_eq!(ok, SlashCommandResponse::Success("`neyoa` has been muted for 12h".to_string()));
    for message in [
        "This player is already muted!",
        "You cannot mute a guild member with a higher guild rank!",
        "You cannot mute someone for more than one month",
        "You cannot mute someone for less than a minute",
        "Invalid time format! Try 7d, 1d, 6h, 1h",
    ] {
        let c = MuteCommand { player: player("neyoa"), duration: 1, unit: TimeUnit::Day };
        assert!(test_command(c, message).is_failure(), "{message}");
    }
}

#[test]
fn kick_answers() {
    let ctx = context();
    let c = KickCommand { player: player("neyoa"), reason: Some("spam\u{7}ming".to_string()) };
    assert_eq!(
        c.get_command(&ctx),
        Ok(MinecraftCommand::Kick("neyoa".to_string(), "spamming".to_string()))
    );
    let none = KickCommand { player: player("neyoa"), reason: None };
    assert_eq!(
        none.get_command(&ctx).unwrap().text(),
        "/g kick neyoa No reason provided"
    );
    let ok = test_command(
        KickCommand { player: player("neyoa"), reason: None },
        "[VIP] neyoa was kicked from the guild by [MVP] neytwoa!",
    );
    assert_eq!(ok, SlashCommandResponse::Success("`neyoa` has been kicked from the guild".to_string()));
    let refused = test_command(
        KickCommand { player: player("neyoa"), reason: None },
        "You do not have permission to kick people from the guild!",
    );
    assert!(refused.is_failure());
}

#[test]
fn invite_answers() {
    let ok = test_command(
        InviteCommand { player: player("neyoa") },
        "You invited [VIP] neyoa to your guild. They have 5 minutes to accept.",
    );
    assert_eq!(ok, SlashCommandResponse::Success("`neyoa` has been invited to the guild".to_string()));
    let offline = test_command(
        InviteCommand { player: player("neyoa") },
        "You sent an offline invite to neyoa! They will have 5 minutes to accept once they come online!",
    );
    assert!(offline.is_success());
    for message in [
        "neyoa is already in another guild!",
        "You've already invited neyoa to your guild! Wait for them to accept!",
        "neyoa is already in your guild!",
        "Your guild is full!",
        "You cannot invite this player to your guild!",
        "You do not have permission to invite players!",
    ] {
        assert!(test_command(InviteCommand { player: player("neyoa") }, message).is_failure(), "{message}");
    }
}

#[test]
fn guild_command_delegates() {
    let c = GuildCommand::Promote(PromoteCommand { player: player("neyoa") });
    assert!(test_command(c, "neyoa was promoted from A to B").is_success());
    let ctx = context();
    let bad = GuildCommand::Kick(KickCommand { player: player("no way"), reason: None });
    assert!(bad.get_command(&ctx).is_err());
}

#[test]
fn timeout_embed() {
    let e = SlashCommandResponse::Timeout.into_embed();
    assert_eq!(e.description.as_deref(), Some("Couldn't find any command response after 10s"));
    assert_eq!(e.colour, 0xf04a47);
}

#[test]
fn command_texts() {
    assert_eq!(MinecraftCommand::Promote("neyoa".to_string()).text(), "/g promote neyoa");
    assert_eq!(MinecraftCommand::Demote("neyoa".to_string()).text(), "/g demote neyoa");
    assert_eq!(MinecraftCommand::Invite("neyoa".to_string()).text(), "/g invite neyoa");
    assert_eq!(MinecraftCommand::Unmute("neyoa".to_string()).text(), "/g unmute neyoa");
    assert_eq!(
        MinecraftCommand::SetRank("neyoa".to_string(), "Expert".to_string()).text(),
        "/g setrank neyoa Expert"
    );
}

#[test]
fn kick_success() {
    for (reason, message) in [
        (Some("inactive".to_string()), "[VIP] neyoa was kicked from the guild by [MVP+] neytwoa!"),
        (None, "[VIP] neyoa was kicked from the guild by [MVP+] neytwoa!"),
    ] {
        assert!(test_command(KickCommand { player: player("neyoa"), reason }, message).is_success());
    }
}

#[test]
fn kick_failures() {
    for (p, message) in [
        ("neyoa", "[MVP++] neyoa is not in your guild!"),
        ("neyoa", "Can't find a player by the name of 'neyoa'"),
        ("neyoa", "You do not have permission to kick people from the guild!"),
        ("neytwoa", "You cannot kick yourself from the guild!"),
        ("neyoa", "You must be in a guild to use this command!"),
    ] {
        let c = KickCommand { player: player(p), reason: None };
        assert!(test_command(c, message).is_failure(), "{message}");
    }
}

#[test]
fn invite_success() {
    for message in [
        "You invited [VIP] neyoa to your guild. They have 5 minutes to accept.",
        "You sent an offline invite to [VIP] neyoa! They will have 5 minutes to accept once they come online!",
    ] {
        assert!(test_command(InviteCommand { player: player("neyoa") }, message).is_success(), "{message}");
    }
}

#[test]
fn invite_failures() {
    for (p, message) in [
        ("n e y o a", ""),
        ("neyoa", "neyoa is already in another guild!"),
        ("neyoa", "You've already invited [VIP] neyoa to your guild! Wait for them to accept!"),
        ("neyoa", "[VIP] neyoa is already in your guild!"),
        ("neyoa", "Your guild is full!"),
        ("neyoa", "You cannot invite this player to your guild!"),
        ("neyoa", "Can't find a player by the name of 'neyoa'"),
        ("neyoa", "You do not have permission to invite players!"),
        ("neyoa", "You must be in a guild to use this command!"),
    ] {
        assert!(test_command(InviteCommand { player: player(p) }, message).is_failure(), "{message}");
    }
}

#[test]
fn invites_of_other_players_are_no_answer() {
    let ctx = context();
    let c = InviteCommand { player: player("neyoa") };
    for line in [
        "You invited [VIP] notch to your guild. They have 5 minutes to accept.",
        "You sent an offline invite to notch! They will have 5 minutes to accept once they come online!",
    ] {
        assert!(c.check_event(&ctx, &RawChatEvent::new(line)).is_none(), "{line}");
    }
}
