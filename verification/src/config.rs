//! The bridge's configuration, read from environment variables.

use crate::commands::decimal;
use crate::text::{chars_of, str_to_string};
use vstd::prelude::*;

verus! {

/// The configuration of the bridge.
#[derive(Debug, Clone)]
pub struct Config {
    pub discord_token: String,
    pub email: Option<String>,
    pub server_address: String,
    pub server_port: u16,
    pub channels: Channels,
}

/// The Discord channels the bridge posts in.
#[derive(Debug, Clone, Copy, PartialEq, Eq)]
pub struct Channels {
    pub guild: u64,
    pub officer: u64,
}

/// A problem with an environment variable; holds the error's text.
#[derive(Debug, Clone, PartialEq, Eq)]
pub enum EnvError {
    Missing(String),
    Invalid(String),
}

/// A copy of an error.
fn copy_error(e: &EnvError) -> (r: EnvError)
    ensures
        r@ == e@,
{
    match e {
        EnvError::Missing(x) => EnvError::Missing(x.clone()),
        EnvError::Invalid(x) => EnvError::Invalid(x.clone()),
    }
}

/// What reading each variable gave: its value, or the error it became.
#[derive(Debug)]
pub struct EnvVars {
    pub discord_token: Result<String, EnvError>,
    pub email: Result<String, EnvError>,
    pub server_address: Result<String, EnvError>,
    pub server_port: Result<String, EnvError>,
    pub guild_channel_id: Result<String, EnvError>,
    pub officer_channel_id: Result<String, EnvError>,
}

// ---------------------------------------------------------------------------
// Unsigned integers
// ---------------------------------------------------------------------------

/// Why a text is no unsigned integer.
#[derive(Debug, Clone, Copy, PartialEq, Eq, Structural)]
pub enum IntError {
    Empty,
    InvalidDigit,
    PosOverflow,
}

/// The text of an [`IntError`], as the standard library words it.
pub open spec fn int_error_text(e: IntError) -> Seq<char> {
    match e {
        IntError::Empty => "cannot parse integer from empty string"@,
        IntError::InvalidDigit => "invalid digit found in string"@,
        IntError::PosOverflow => "number too large to fit in target type"@,
    }
}

pub fn int_error_message(e: IntError) -> (t: &'static str)
    ensures
        t@ == int_error_text(e),
{
    match e {
        IntError::Empty => "cannot parse integer from empty string",
        IntError::InvalidDigit => "invalid digit found in string",
        IntError::PosOverflow => "number too large to fit in target type",
    }
}

pub open spec fn is_digit(c: char) -> bool {
    '0' <= c && c <= '9'
}

pub open spec fn digit_value(c: char) -> int {
    (c as int) - ('0' as int)
}

/// Reading the digits `s[i..]` onto `acc`, with results above `max`
/// refused: the first character that is no digit, or the first digit that
/// takes the value above `max`, decides the error.
pub open spec fn read_digits(s: Seq<char>, i: int, acc: int, max: int) -> Result<int, IntError>
    decreases s.len() - i,
{
    if i >= s.len() || i < 0 {
        Ok(acc)
    } else if !is_digit(s[i]) {
        Err(IntError::InvalidDigit)
    } else if acc * 10 + digit_value(s[i]) > max {
        Err(IntError::PosOverflow)
    } else {
        read_digits(s, i + 1, acc * 10 + digit_value(s[i]), max)
    }
}

/// The unsigned integer that `s` spells, up to `max`, as `str::parse` reads
/// it: an optional `+` and decimal digits.
pub open spec fn parse_unsigned(s: Seq<char>, max: int) -> Result<int, IntError> {
    if s.len() == 0 {
        Err(IntError::Empty)
    } else if (s[0] == '+' || s[0] == '-') && s.len() == 1 {
        Err(IntError::InvalidDigit)
    } else if s[0] == '+' {
        read_digits(s, 1, 0, max)
    } else {
        read_digits(s, 0, 0, max)
    }
}

/// Reads an unsigned integer no larger than `max`.
pub fn parse_u64(text: &str, max: u64) -> (r: Result<u64, IntError>)
    ensures
        match r {
            Ok(n) => parse_unsigned(text@, max as int) == Ok::<int, IntError>(n as int) && n <= max,
            Err(e) => parse_unsigned(text@, max as int) == Err::<int, IntError>(e),
        },
{
    let s = chars_of(text);
    let n = s.len();
    if n == 0 {
        return Err(IntError::Empty);
    }
    if (s[0] == '+' || s[0] == '-') && n == 1 {
        return Err(IntError::InvalidDigit);
    }
    let mut i: usize = if s[0] == '+' {
        1
    } else {
        0
    };
    let mut acc: u64 = 0;
    while i < n
        invariant
            i <= n == s@.len(),
            acc <= max,
            parse_unsigned(text@, max as int) == read_digits(s@, i as int, acc as int, max as int),
            s@ == text@,
        decreases n - i,
    {
        let c = s[i];
        if !('0' <= c && c <= '9') {
            return Err(IntError::InvalidDigit);
        }
        let d: u64 = ((c as u32) - ('0' as u32)) as u64;
        if d > max {
            return Err(IntError::PosOverflow);
        }
        if acc > (max - d) / 10 {
            proof {
                assert(acc * 10 + d > max) by (nonlinear_arith)
                    requires
                        acc > (max - d) / 10,
                        d <= max,
                ;
            }
            return Err(IntError::PosOverflow);
        }
        proof {
            assert(acc * 10 + d <= max) by (nonlinear_arith)
                requires
                    acc <= (max - d) / 10,
                    d <= max,
            ;
        }
        acc = acc * 10 + d;
        i = i + 1;
    }
    Ok(acc)
}

// ---------------------------------------------------------------------------
// Reading the configuration
// ---------------------------------------------------------------------------

/// The value of an error: whether the variable was missing, and the text.
pub type EnvErrorView = (bool, Seq<char>);

/// What a variable gave, as values.
pub open spec fn var_view(v: Result<String, EnvError>) -> Result<Seq<char>, EnvErrorView> {
    match v {
        Ok(t) => Ok(t@),
        Err(e) => Err(e@),
    }
}

/// A channel id, or the error its variable gives.
pub open spec fn channel_id(v: Result<Seq<char>, EnvErrorView>) -> Result<int, EnvErrorView> {
    match v {
        Err(e) => Err(e),
        Ok(t) => match parse_unsigned(t, u64::MAX as int) {
            Ok(n) => Ok(n),
            Err(e) => Err((false, int_error_text(e))),
        },
    }
}

/// The port, or the error its variable gives; 25565 when it is not set.
pub open spec fn port(v: Result<Seq<char>, EnvErrorView>) -> Result<int, EnvErrorView> {
    match v {
        Err(_) => Ok(25565),
        Ok(t) => match parse_unsigned(t, u16::MAX as int) {
            Ok(n) => Ok(n),
            Err(e) => Err((false, int_error_text(e))),
        },
    }
}

/// The first error of the configuration, in the order its variables are read,
/// if any.
pub open spec fn config_error(v: EnvVars) -> Option<EnvErrorView> {
    match var_view(v.discord_token) {
        Err(e) => Some(e),
        Ok(_) => match port(var_view(v.server_port)) {
            Err(e) => Some(e),
            Ok(_) => match channel_id(var_view(v.guild_channel_id)) {
                Err(e) => Some(e),
                Ok(_) => match channel_id(var_view(v.officer_channel_id)) {
                    Err(e) => Some(e),
                    Ok(_) => None,
                },
            },
        },
    }
}

/// The configuration the variables give, when they give one.
pub open spec fn config_of(v: EnvVars, debug: bool, c: Config) -> bool {
    &&& v.discord_token matches Ok(t) && c.discord_token@ == t@
    &&& match v.email {
        Ok(e) => c.email matches Some(x) && x@ == e@,
        Err(_) => c.email is None,
    }
    &&& c.server_address@ == match v.server_address {
        Ok(a) => a@,
        Err(_) => if debug {
            "localhost"@
        } else {
            "mc.hypixel.io"@
        },
    }
    &&& c.server_port == port(var_view(v.server_port))->Ok_0
    &&& c.channels.guild == channel_id(var_view(v.guild_channel_id))->Ok_0
    &&& c.channels.officer == channel_id(var_view(v.officer_channel_id))->Ok_0
}

fn read_channel(v: &Result<String, EnvError>) -> (r: Result<u64, EnvError>)
    ensures
        match r {
            Ok(n) => channel_id(var_view(*v)) == Ok::<int, EnvErrorView>(n as int),
            Err(e) => channel_id(var_view(*v)) == Err::<int, EnvErrorView>(e@),
        },
{
    match v {
        Err(e) => Err(copy_error(e)),
        Ok(t) => match parse_u64(t.as_str(), u64::MAX) {
            Ok(n) => Ok(n),
            Err(e) => Err(EnvError::Invalid(str_to_string(int_error_message(e)))),
        },
    }
}

impl View for EnvError {
    type V = (bool, Seq<char>);

    /// Whether the variable was missing, and the text.
    open spec fn view(&self) -> (bool, Seq<char>) {
        match self {
            EnvError::Missing(x) => (true, x@),
            EnvError::Invalid(x) => (false, x@),
        }
    }
}

impl Config {
    /// Reads the configuration from what each variable gave; `debug` says
    /// whether this is a debug build, which connects to `localhost` when no
    /// server address is set.
    pub fn new(vars: &EnvVars, debug: bool) -> (r: Result<Config, EnvError>)
        ensures
            match r {
                Ok(c) => config_error(*vars) is None && config_of(*vars, debug, c),
                Err(e) => config_error(*vars) == Some(e@),
            },
    {
        let discord_token = match &vars.discord_token {
            Ok(t) => t.clone(),
            Err(e) => {
                return Err(copy_error(e));
            },
        };
        let email = match &vars.email {
            Ok(e) => Some(e.clone()),
            Err(_) => None,
        };
        let server_address = match &vars.server_address {
            Ok(a) => a.clone(),
            Err(_) => if debug {
                str_to_string("localhost")
            } else {
                str_to_string("mc.hypixel.io")
            },
        };
        let server_port: u16 = match &vars.server_port {
            Ok(p) => match parse_u64(p.as_str(), 65535) {
                Ok(n) => n as u16,
                Err(e) => {
                    return Err(EnvError::Invalid(str_to_string(int_error_message(e))));
                },
            },
            Err(_) => 25565,
        };
        let guild = match read_channel(&vars.guild_channel_id) {
            Ok(n) => n,
            Err(e) => {
                return Err(e);
            },
        };
        let officer = match read_channel(&vars.officer_channel_id) {
            Ok(n) => n,
            Err(e) => {
                return Err(e);
            },
        };
        Ok(
            Config {
                discord_token,
                email,
                server_address,
                server_port,
                channels: Channels { guild, officer },
            },
        )
    }
}

// ---------------------------------------------------------------------------
// The configuration of the running bridge
// ---------------------------------------------------------------------------

/// Where the configuration is kept once it has been read.
#[derive(Debug)]
pub struct ConfigCell {
    value: Option<Config>,
}

impl ConfigCell {
    /// A cell with no configuration yet.
    pub fn new() -> (c: ConfigCell)
        ensures
            !c.is_set(),
    {
        ConfigCell { value: None }
    }

    /// Whether a configuration has been stored.
    pub closed spec fn is_set(&self) -> bool {
        self.value is Some
    }

    /// The configuration stored.
    pub closed spec fn get(&self) -> Config {
        self.value->Some_0
    }
}

/// Reads and stores the configuration, unless one is stored already; a
/// stored configuration is kept as it is.
pub fn init(cell: &mut ConfigCell, vars: &EnvVars, debug: bool) -> (r: Result<(), EnvError>)
    ensures
        old(cell).is_set() ==> r is Ok && final(cell).is_set() && final(cell).get() == old(
            cell,
        ).get(),
        !old(cell).is_set() ==> match r {
            Ok(_) => final(cell).is_set() && config_error(*vars) is None && config_of(
                *vars,
                debug,
                final(cell).get(),
            ),
            Err(e) => !final(cell).is_set() && config_error(*vars) == Some(e@),
        },
{
    if cell.value.is_some() {
        return Ok(());
    }
    match Config::new(vars, debug) {
        Ok(c) => {
            cell.value = Some(c);
            Ok(())
        },
        Err(e) => Err(e),
    }
}

/// The stored configuration.
pub fn config(cell: &ConfigCell) -> (c: &Config)
    requires
        cell.is_set(),
    ensures
        *c == cell.get(),
{
    match &cell.value {
        Some(c) => c,
        None => {
            assert(false);
            unreached()
        },
    }
}


// ---------------------------------------------------------------------------
// Laws of the parse
// ---------------------------------------------------------------------------

/// The value of a run of decimal digits.
pub open spec fn digits_value(s: Seq<char>) -> int
    decreases s.len(),
{
    if s.len() == 0 {
        0
    } else {
        digits_value(s.drop_last()) * 10 + digit_value(s.last())
    }
}

/// All characters are decimal digits.
pub open spec fn all_digits(s: Seq<char>) -> bool {
    forall|k: int| 0 <= k < s.len() ==> is_digit(#[trigger] s[k])
}

proof fn lemma_prefix_value_le(s: Seq<char>, j: int)
    requires
        all_digits(s),
        0 <= j <= s.len(),
    ensures
        0 <= digits_value(s.take(j)) <= digits_value(s),
    decreases s.len(),
{
    if s.len() > 0 {
        let t = s.drop_last();
        assert(all_digits(t));
        assert(is_digit(s[s.len() - 1]));
        if j == s.len() {
            assert(s.take(j) =~= s);
            lemma_prefix_value_le(t, t.len() as int);
            assert(t.take(t.len() as int) =~= t);
        } else {
            lemma_prefix_value_le(t, j);
            assert(t.take(j) =~= s.take(j));
            lemma_prefix_value_le(t, t.len() as int);
            assert(t.take(t.len() as int) =~= t);
        }
    }
}

proof fn lemma_read_digits_value(s: Seq<char>, i: int, max: int)
    requires
        all_digits(s),
        0 <= i <= s.len(),
        digits_value(s) <= max,
    ensures
        read_digits(s, i, digits_value(s.take(i)), max) == Ok::<int, IntError>(digits_value(s)),
    decreases s.len() - i,
{
    if i < s.len() {
        let next = s.take(i + 1);
        assert(next.drop_last() =~= s.take(i));
        assert(next.last() == s[i]);
        lemma_prefix_value_le(s, i + 1);
        lemma_read_digits_value(s, i + 1, max);
    } else {
        assert(s.take(i) =~= s);
    }
}

proof fn lemma_digit_value(d: nat)
    requires
        d < 10,
    ensures
        is_digit(crate::commands::digit(d)),
        digit_value(crate::commands::digit(d)) == d,
{
}

proof fn lemma_decimal_digits(n: nat)
    ensures
        decimal(n).len() > 0,
        all_digits(decimal(n)),
        digits_value(decimal(n)) == n,
    decreases n,
{
    if n >= 10 {
        lemma_decimal_digits(n / 10);
        let t = decimal(n / 10);
        let d = (n % 10) as nat;
        lemma_digit_value(d);
        assert(decimal(n) == t.push(crate::commands::digit(d)));
        assert(n == (n / 10) * 10 + d);
        assert(decimal(n).drop_last() =~= t);
        assert(decimal(n).last() == crate::commands::digit(d));
        assert(digits_value(decimal(n)) == digits_value(t) * 10 + digit_value(
            crate::commands::digit(d),
        ));
        assert(decimal(n).drop_last() =~= t);
        assert forall|k: int| 0 <= k < decimal(n).len() implies is_digit(#[trigger] decimal(n)[k]) by {
            if k < t.len() {
                assert(decimal(n)[k] == t[k]);
            }
        }
    } else {
        lemma_digit_value(n);
        assert(decimal(n) == seq![crate::commands::digit(n)]);
        assert(decimal(n).drop_last() =~= Seq::<char>::empty());
        assert(digits_value(decimal(n)) == digits_value(Seq::<char>::empty()) * 10 + digit_value(
            crate::commands::digit(n),
        ));
    }
}

/// A number written in decimal, with or without a leading `+`, reads back as
/// that number when it is no larger than the limit, and is refused as too
/// large when it is.
pub proof fn lemma_parse_decimal(n: nat, max: nat)
    ensures
        parse_unsigned(decimal(n), max as int) == (if n <= max {
            Ok::<int, IntError>(n as int)
        } else {
            Err(IntError::PosOverflow)
        }),
        n <= max ==> parse_unsigned(seq!['+'] + decimal(n), max as int) == Ok::<int, IntError>(n as int),
{
    lemma_decimal_digits(n);
    let s = decimal(n);
    assert(s.take(0) =~= Seq::<char>::empty());
    assert(is_digit(s[0]));
    if n <= max {
        lemma_read_digits_value(s, 0, max as int);
        let p = seq!['+'] + s;
        assert(p.subrange(1, p.len() as int) =~= s);
        lemma_read_digits_shift(p, s, 0, 0, max as int);
    } else {
        lemma_read_digits_overflow(s, 0, max as int);
    }
}

/// Reading past a one-character prefix reads the rest.
proof fn lemma_read_digits_shift(p: Seq<char>, s: Seq<char>, i: int, acc: int, max: int)
    requires
        p.len() == s.len() + 1,
        forall|k: int| 0 <= k < s.len() ==> p[k + 1] == #[trigger] s[k],
        0 <= i <= s.len(),
    ensures
        read_digits(p, i + 1, acc, max) == read_digits(s, i, acc, max),
    decreases s.len() - i,
{
    if i < s.len() {
        assert(p[i + 1] == s[i]);
        lemma_read_digits_shift(p, s, i + 1, acc * 10 + digit_value(s[i]), max);
    }
}

/// Reading digits whose value exceeds the limit is refused as too large.
proof fn lemma_read_digits_overflow(s: Seq<char>, i: int, max: int)
    requires
        all_digits(s),
        0 <= i <= s.len(),
        0 <= max,
        digits_value(s.take(i)) <= max,
        digits_value(s) > max,
    ensures
        read_digits(s, i, digits_value(s.take(i)), max) == Err::<int, IntError>(IntError::PosOverflow),
    decreases s.len() - i,
{
    if i < s.len() {
        let next = s.take(i + 1);
        assert(next.drop_last() =~= s.take(i));
        assert(next.last() == s[i]);
        if digits_value(next) <= max {
            lemma_read_digits_overflow(s, i + 1, max);
        }
    } else {
        assert(s.take(i) =~= s);
    }
}

} // verus!
