use bridge::chat::{handle, Chat, FromMinecraft};

fn check(line: &str, expected: Option<FromMinecraft>) {
    assert_eq!(handle(line), expected);
}

fn s(x: &str) -> String {
    x.to_string()
}

#[test]
fn none() {
    assert!(handle("-----").is_none())
}

#[test]
fn separator_lines_are_dropped() {
    assert!(handle("Guild > neyoa: &----").is_none());
    assert!(handle("&-").is_none());
}

#[test]
fn guild() {
    for user in ["neyoa", "[VIP+] neyoa", "neyoa [Staff]", "neyoa", "[VIP+] neyoa [Staff]"] {
        check(
            &format!("Guild > {user}: Hello, World!"),
            Some(FromMinecraft::Message(s("neyoa"), s("Hello, World!"), Chat::Guild)),
        );
    }
}

#[test]
fn officer() {
    for user in ["neyoa", "[VIP+] neyoa", "neyoa [Staff]", "neyoa", "[VIP+] neyoa [Staff]"] {
        check(
            &format!("Officer > {user}: Hello, World!"),
            Some(FromMinecraft::Message(s("neyoa"), s("Hello, World!"), Chat::Officer)),
        );
    }
}

#[test]
fn login_and_logout() {
    check("Guild > neyoa joined.", Some(FromMinecraft::Login(s("neyoa"))));
    check("Guild > neyoa left.", Some(FromMinecraft::Logout(s("neyoa"))));
}

#[test]
fn join() {
    for user in ["neyoa", "[VIP+] neyoa"] {
        check(&format!("{user} joined the guild!"), Some(FromMinecraft::Join(s("neyoa"))));
    }
}

#[test]
fn leave() {
    for user in ["neyoa", "[VIP+] neyoa"] {
        check(&format!("{user} left the guild!"), Some(FromMinecraft::Leave(s("neyoa"))));
    }
}

#[test]
fn kick() {
    for (user, by) in [
        ("neyoa", "lesbianeyoa"),
        ("[VIP] neyoa", "lesbianeyoa"),
        ("neyoa", "[MVP++] lesbianeyoa"),
        ("[VIP] neyoa", "[MVP] lesbianeyoa"),
    ] {
        check(
            &format!("{user} was kicked from the guild by {by}!"),
            Some(FromMinecraft::Kick(s("neyoa"), s("lesbianeyoa"))),
        );
    }
}

#[test]
fn promote() {
    for user in ["neyoa", "[VIP] neyoa"] {
        check(
            &format!("{user} was promoted from Member to Staff"),
            Some(FromMinecraft::Promotion(s("neyoa"), s("Member"), s("Staff"))),
        );
    }
}

#[test]
fn demote() {
    for user in ["neyoa", "[VIP] neyoa"] {
        check(
            &format!("{user} was demoted from Staff to Member"),
            Some(FromMinecraft::Demotion(s("neyoa"), s("Staff"), s("Member"))),
        );
    }
}

#[test]
fn mute() {
    for (user, by) in [
        ("neyoa", "lesbianeyoa"),
        ("[VIP] neyoa", "lesbianeyoa"),
        ("neyoa", "[MVP+] lesbianeyoa"),
        ("[MVP+] neyoa", "[VIP] lesbianeyoa"),
    ] {
        check(
            &format!("{by} has muted {user} for 12h"),
            Some(FromMinecraft::Mute(s("neyoa"), s("lesbianeyoa"), s("12h"))),
        );
    }
}

#[test]
fn unmute() {
    for (user, by) in [
        ("neyoa", "lesbianeyoa"),
        ("[VIP] neyoa", "lesbianeyoa"),
        ("neyoa", "[MVP+] lesbianeyoa"),
        ("[MVP+] neyoa", "[VIP] lesbianeyoa"),
    ] {
        check(
            &format!("{by} has unmuted {user}"),
            Some(FromMinecraft::Unmute(s("neyoa"), s("lesbianeyoa"))),
        );
    }
}

#[test]
fn guild_mute() {
    for user in ["neyoa", "[VIP] neyoa"] {
        check(
            &format!("{user} has muted the guild chat for 1d"),
            Some(FromMinecraft::GuildMute(s("neyoa"), s("1d"))),
        );
    }
}

#[test]
fn guild_unmute() {
    for by in ["neyoa", "[VIP] neyoa"] {
        check(
            &format!("{by} has unmuted the guild chat!"),
            Some(FromMinecraft::GuildUnmute(s("neyoa"))),
        );
    }
}

#[test]
fn promotion_keeps_the_last_to() {
    check(
        "neyoa was promoted from Up to Down to Staff",
        Some(FromMinecraft::Promotion(s("neyoa"), s("Up to Down"), s("Staff"))),
    );
}

#[test]
fn unrelated_lines_give_nothing() {
    check("Hello there", None);
    check("Guild > : nothing", None);
    check("neyoa joined the guild", None);
}

#[test]
fn lazy_rank_prefers_the_shortest_rank() {
    check(
        "[A] [B] neyoa joined the guild!",
        Some(FromMinecraft::Join(s("neyoa"))),
    );
}
