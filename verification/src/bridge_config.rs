//! The configuration of the serenity-era bridge: every value is kept as text.

use crate::text::{concat, str_to_string};
use vstd::prelude::*;

verus! {

/// The configuration of the bridge.
#[derive(Debug, Clone)]
pub struct Config {
    pub token: String,
    pub owner_id: String,
    pub channels: ConfigChannels,
    pub staff_role_id: String,
    pub log_channel_id: Option<String>,
    pub dev_server_id: Option<String>,
}

/// The Discord channels the bridge posts in.
#[derive(Debug, Clone)]
pub struct ConfigChannels {
    pub guild: String,
    pub officer: String,
}

/// The value of each environment variable, `None` when it is unset or not
/// Unicode.
#[derive(Debug, Clone)]
pub struct ConfigVars {
    pub discord_token: Option<String>,
    pub owner_id: Option<String>,
    pub guild_channel_id: Option<String>,
    pub officer_channel_id: Option<String>,
    pub staff_role_id: Option<String>,
    pub log_channel_id: Option<String>,
    pub dev_server_id: Option<String>,
}

/// A value that counts as set: present and not empty.
pub open spec fn set_value(v: Option<String>) -> Option<Seq<char>> {
    match v {
        Some(x) => if x@.len() > 0 {
            Some(x@)
        } else {
            None
        },
        None => None,
    }
}

/// The error for a required variable that is not set.
pub open spec fn unset_text(key: Seq<char>) -> Seq<char> {
    "ENV `"@ + key + "` should be set and not be empty"@
}

/// A required variable: its value, or the error naming it.
pub fn required(key: &str, value: &Option<String>) -> (r: Result<String, String>)
    ensures
        match set_value(*value) {
            Some(x) => r matches Ok(y) && y@ == x,
            None => r matches Err(t) && t@ == unset_text(key@),
        },
{
    if let Some(v) = value {
        if !v.as_str().is_empty() {
            return Ok(v.clone());
        }
    }
    Err(concat(concat(str_to_string("ENV `"), key), "` should be set and not be empty"))
}

/// An optional variable: its value when it is set.
pub fn optional(value: &Option<String>) -> (r: Option<String>)
    ensures
        match set_value(*value) {
            Some(x) => r matches Some(y) && y@ == x,
            None => r is None,
        },
{
    match value {
        Some(v) => if v.as_str().is_empty() {
            None
        } else {
            Some(v.clone())
        },
        None => None,
    }
}

/// The first required variable that is not set, in the order they are read.
pub open spec fn first_unset(v: ConfigVars) -> Option<Seq<char>> {
    if set_value(v.discord_token) is None {
        Some("DISCORD_TOKEN"@)
    } else if set_value(v.owner_id) is None {
        Some("OWNER_ID"@)
    } else if set_value(v.guild_channel_id) is None {
        Some("GUILD_CHANNEL_ID"@)
    } else if set_value(v.officer_channel_id) is None {
        Some("OFFICER_CHANNEL_ID"@)
    } else if set_value(v.staff_role_id) is None {
        Some("STAFF_ROLE_ID"@)
    } else {
        None
    }
}

/// The values of an optional text.
pub open spec fn text_of(t: Option<String>) -> Option<Seq<char>> {
    match t {
        Some(x) => Some(x@),
        None => None,
    }
}

impl Config {
    /// Reads the configuration: every required variable must be set and not
    /// empty; the optional ones count only when not empty.
    pub fn new(vars: &ConfigVars) -> (r: Result<Config, String>)
        ensures
            match first_unset(*vars) {
                Some(key) => r matches Err(t) && t@ == unset_text(key),
                None => r matches Ok(c) && {
                    &&& Some(c.token@) == set_value(vars.discord_token)
                    &&& Some(c.owner_id@) == set_value(vars.owner_id)
                    &&& Some(c.channels.guild@) == set_value(vars.guild_channel_id)
                    &&& Some(c.channels.officer@) == set_value(vars.officer_channel_id)
                    &&& Some(c.staff_role_id@) == set_value(vars.staff_role_id)
                    &&& text_of(c.log_channel_id) == set_value(vars.log_channel_id)
                    &&& text_of(c.dev_server_id) == set_value(vars.dev_server_id)
                },
            },
    {
        let token = match required("DISCORD_TOKEN", &vars.discord_token) {
            Ok(t) => t,
            Err(e) => {
                return Err(e);
            },
        };
        let owner_id = match required("OWNER_ID", &vars.owner_id) {
            Ok(t) => t,
            Err(e) => {
                return Err(e);
            },
        };
        let guild = match required("GUILD_CHANNEL_ID", &vars.guild_channel_id) {
            Ok(t) => t,
            Err(e) => {
                return Err(e);
            },
        };
        let officer = match required("OFFICER_CHANNEL_ID", &vars.officer_channel_id) {
            Ok(t) => t,
            Err(e) => {
                return Err(e);
            },
        };
        let staff_role_id = match required("STAFF_ROLE_ID", &vars.staff_role_id) {
            Ok(t) => t,
            Err(e) => {
                return Err(e);
            },
        };
        Ok(
            Config {
                token,
                owner_id,
                channels: ConfigChannels { guild, officer },
                staff_role_id,
                log_channel_id: optional(&vars.log_channel_id),
                dev_server_id: optional(&vars.dev_server_id),
            },
        )
    }
}

} // verus!
