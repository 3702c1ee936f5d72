//! How the first bridge described its slash commands to Discord: each
//! option becomes the list of settings applied to Discord's option builder.

use crate::text::{concat, str_to_string};
use vstd::prelude::*;

verus! {

/// An option of a slash command.
#[derive(Debug)]
pub enum CommandOption {
    /// A text option.
    Text {
        name: String,
        description: String,
        min_length: Option<u16>,
        max_length: Option<u16>,
        autocomplete: bool,
        required: bool,
    },
    /// An integer option.
    Integer {
        name: String,
        description: String,
        min: Option<i64>,
        max: Option<i64>,
        required: bool,
    },
    /// A text option with a fixed set of choices, each a name and a value.
    Choices { name: String, description: String, choices: Vec<(String, String)>, required: bool },
}

/// The type of an option's value.
#[derive(Debug, Clone, Copy, PartialEq, Eq, Structural)]
pub enum OptionKind {
    Text,
    Integer,
}

/// One setting of Discord's option builder.
#[derive(Debug, Clone)]
pub enum OptionSetting {
    Kind(OptionKind),
    Name(String),
    Description(String),
    Required(bool),
    Autocomplete(bool),
    MinLength(u16),
    MaxLength(u16),
    MinInt(i64),
    MaxInt(i64),
    Choice(String, String),
}

/// The mathematical value of an [`OptionSetting`].
pub enum SettingView {
    Kind(OptionKind),
    Name(Seq<char>),
    Description(Seq<char>),
    Required(bool),
    Autocomplete(bool),
    MinLength(u16),
    MaxLength(u16),
    MinInt(i64),
    MaxInt(i64),
    Choice(Seq<char>, Seq<char>),
}

impl View for OptionSetting {
    type V = SettingView;

    open spec fn view(&self) -> SettingView {
        match self {
            OptionSetting::Kind(k) => SettingView::Kind(*k),
            OptionSetting::Name(n) => SettingView::Name(n@),
            OptionSetting::Description(d) => SettingView::Description(d@),
            OptionSetting::Required(b) => SettingView::Required(*b),
            OptionSetting::Autocomplete(b) => SettingView::Autocomplete(*b),
            OptionSetting::MinLength(n) => SettingView::MinLength(*n),
            OptionSetting::MaxLength(n) => SettingView::MaxLength(*n),
            OptionSetting::MinInt(n) => SettingView::MinInt(*n),
            OptionSetting::MaxInt(n) => SettingView::MaxInt(*n),
            OptionSetting::Choice(a, b) => SettingView::Choice(a@, b@),
        }
    }
}

/// The setting for an optional bound, if the bound is given.
pub open spec fn bound<T>(b: Option<T>, f: spec_fn(T) -> SettingView) -> Seq<SettingView> {
    match b {
        Some(x) => seq![f(x)],
        None => Seq::empty(),
    }
}

/// The settings for a list of choices, in order.
pub open spec fn choice_settings(choices: Seq<(String, String)>) -> Seq<SettingView> {
    choices.map_values(|c: (String, String)| SettingView::Choice(c.0@, c.1@))
}

/// The settings an option is described with, in the order they are applied.
pub open spec fn settings_of(o: CommandOption) -> Seq<SettingView> {
    match o {
        CommandOption::Text { name, description, min_length, max_length, autocomplete, required } =>
            seq![
            SettingView::Kind(OptionKind::Text),
            SettingView::Name(name@),
            SettingView::Description(description@),
            SettingView::Required(required),
            SettingView::Autocomplete(autocomplete),
        ] + bound(min_length, |n: u16| SettingView::MinLength(n)) + bound(
            max_length,
            |n: u16| SettingView::MaxLength(n),
        ),
        CommandOption::Integer { name, description, min, max, required } => seq![
            SettingView::Kind(OptionKind::Integer),
            SettingView::Name(name@),
            SettingView::Description(description@),
            SettingView::Required(required),
        ] + bound(min, |n: i64| SettingView::MinInt(n)) + bound(max, |n: i64| SettingView::MaxInt(n)),
        CommandOption::Choices { name, description, choices, required } => seq![
            SettingView::Kind(OptionKind::Text),
            SettingView::Name(name@),
            SettingView::Description(description@),
            SettingView::Required(required),
        ] + choice_settings(choices@),
    }
}

/// The values of a list of settings.
pub open spec fn setting_views(v: Seq<OptionSetting>) -> Seq<SettingView> {
    v.map_values(|s: OptionSetting| s@)
}

fn push_setting(v: &mut Vec<OptionSetting>, s: OptionSetting)
    ensures
        setting_views(final(v)@) == setting_views(old(v)@).push(s@),
{
    let ghost before = v@;
    v.push(s);
    assert(setting_views(v@) =~= setting_views(before).push(s@));
}

/// The settings an option is described with, in the order they are applied.
pub fn option_settings(o: &CommandOption) -> (v: Vec<OptionSetting>)
    ensures
        setting_views(v@) == settings_of(*o),
{
    let mut v: Vec<OptionSetting> = Vec::new();
    match o {
        CommandOption::Text { name, description, min_length, max_length, autocomplete, required } => {
            push_setting(&mut v, OptionSetting::Kind(OptionKind::Text));
            push_setting(&mut v, OptionSetting::Name(name.clone()));
            push_setting(&mut v, OptionSetting::Description(description.clone()));
            push_setting(&mut v, OptionSetting::Required(*required));
            push_setting(&mut v, OptionSetting::Autocomplete(*autocomplete));
            let ghost head = setting_views(v@);
            if let Some(n) = min_length {
                push_setting(&mut v, OptionSetting::MinLength(*n));
            }
            let ghost mid = setting_views(v@);
            assert(mid =~= head + bound(*min_length, |n: u16| SettingView::MinLength(n)));
            if let Some(n) = max_length {
                push_setting(&mut v, OptionSetting::MaxLength(*n));
            }
            assert(setting_views(v@) =~= mid + bound(*max_length, |n: u16| SettingView::MaxLength(n)));
        },
        CommandOption::Integer { name, description, min, max, required } => {
            push_setting(&mut v, OptionSetting::Kind(OptionKind::Integer));
            push_setting(&mut v, OptionSetting::Name(name.clone()));
            push_setting(&mut v, OptionSetting::Description(description.clone()));
            push_setting(&mut v, OptionSetting::Required(*required));
            let ghost head = setting_views(v@);
            if let Some(n) = min {
                push_setting(&mut v, OptionSetting::MinInt(*n));
            }
            let ghost mid = setting_views(v@);
            assert(mid =~= head + bound(*min, |n: i64| SettingView::MinInt(n)));
            if let Some(n) = max {
                push_setting(&mut v, OptionSetting::MaxInt(*n));
            }
            assert(setting_views(v@) =~= mid + bound(*max, |n: i64| SettingView::MaxInt(n)));
        },
        CommandOption::Choices { name, description, choices, required } => {
            push_setting(&mut v, OptionSetting::Kind(OptionKind::Text));
            push_setting(&mut v, OptionSetting::Name(name.clone()));
            push_setting(&mut v, OptionSetting::Description(description.clone()));
            push_setting(&mut v, OptionSetting::Required(*required));
            let ghost head = setting_views(v@);
            let mut i: usize = 0;
            while i < choices.len()
                invariant
                    i <= choices@.len(),
                    setting_views(v@) == head + choice_settings(choices@.take(i as int)),
                decreases choices@.len() - i,
            {
                let (a, b) = (&choices[i].0, &choices[i].1);
                push_setting(&mut v, OptionSetting::Choice(a.clone(), b.clone()));
                proof {
                    assert(choice_settings(choices@.take(i + 1)) =~= choice_settings(
                        choices@.take(i as int),
                    ).push(SettingView::Choice(choices@[i as int].0@, choices@[i as int].1@)));
                }
                i = i + 1;
            }
            assert(choices@.take(choices@.len() as int) =~= choices@);
        },
    }
    v
}

/// The description a command is registered with: debug builds mark it.
pub open spec fn registered_description(description: Seq<char>, debug: bool) -> Seq<char> {
    if debug {
        description + " (debug)"@
    } else {
        description
    }
}

/// The description a command is registered with.
pub fn registered_description_of(description: &str, debug: bool) -> (d: String)
    ensures
        d@ == registered_description(description@, debug),
{
    if debug {
        concat(str_to_string(description), " (debug)")
    } else {
        str_to_string(description)
    }
}


/// Every option is described by its kind, its name, its description and
/// whether it is required, in that order; a text option then says whether it
/// autocompletes and gives its length bounds, an integer option its value
/// bounds, and a choice option one choice per entry, in order.
pub proof fn lemma_settings_describe(o: CommandOption)
    ensures
        settings_of(o).len() >= 4,
        settings_of(o)[0] == SettingView::Kind(
            match o {
                CommandOption::Integer { .. } => OptionKind::Integer,
                _ => OptionKind::Text,
            },
        ),
        settings_of(o)[1] == SettingView::Name(
            match o {
                CommandOption::Text { name, .. } => name@,
                CommandOption::Integer { name, .. } => name@,
                CommandOption::Choices { name, .. } => name@,
            },
        ),
        settings_of(o)[2] == SettingView::Description(
            match o {
                CommandOption::Text { description, .. } => description@,
                CommandOption::Integer { description, .. } => description@,
                CommandOption::Choices { description, .. } => description@,
            },
        ),
        settings_of(o)[3] == SettingView::Required(
            match o {
                CommandOption::Text { required, .. } => required,
                CommandOption::Integer { required, .. } => required,
                CommandOption::Choices { required, .. } => required,
            },
        ),
        o matches CommandOption::Text { autocomplete, min_length, max_length, .. } ==> (
        settings_of(o)[4] == SettingView::Autocomplete(autocomplete) && settings_of(o).len() == 5
            + (if min_length is Some { 1int } else { 0 }) + (if max_length is Some { 1int } else { 0 })
            && (min_length matches Some(n) ==> settings_of(o)[5] == SettingView::MinLength(n))),
        o matches CommandOption::Integer { min, max, .. } ==> (settings_of(o).len() == 4 + (if min is Some {
            1int
        } else {
            0
        }) + (if max is Some { 1int } else { 0 }) && (min matches Some(n) ==> settings_of(o)[4]
            == SettingView::MinInt(n))),
        o matches CommandOption::Choices { choices, .. } ==> (settings_of(o).len() == 4
            + choices@.len() && forall|i: int|
            0 <= i < choices@.len() ==> settings_of(o)[4 + i] == SettingView::Choice(
                (#[trigger] choices@[i]).0@,
                choices@[i].1@,
            )),
{
}

} // verus!
