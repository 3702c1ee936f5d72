//! Discord mentions written out as names, so that they read well in
//! Minecraft chat.

use crate::commands::{decimal, push_decimal};
use crate::config::{is_digit, read_digits};
use crate::inbound::display_name_of;
use crate::text::{chars_of, concat, str_to_string};
use vstd::prelude::*;

verus! {

// ---------------------------------------------------------------------------
// Replacing every occurrence of a text
// ---------------------------------------------------------------------------

/// `s` with every occurrence of `p` replaced by `r`, left to right and
/// without overlaps, as `str::replace` does for a non-empty pattern.
pub open spec fn replace_all(s: Seq<char>, p: Seq<char>, r: Seq<char>) -> Seq<char>
    decreases s.len(),
{
    if s.len() == 0 || p.len() == 0 {
        s
    } else if p.len() <= s.len() && s.take(p.len() as int) == p {
        r + replace_all(s.skip(p.len() as int), p, r)
    } else {
        seq![s[0]] + replace_all(s.skip(1), p, r)
    }
}

/// `p` occurs in `s`.
pub open spec fn occurs(s: Seq<char>, p: Seq<char>) -> bool {
    exists|i: int| 0 <= i && i + p.len() <= s.len() && #[trigger] s.subrange(i, i + p.len()) == p
}

/// Whether `v[i..]` starts with `p`.
fn at(v: &Vec<char>, i: usize, p: &Vec<char>) -> (b: bool)
    requires
        i <= v@.len(),
    ensures
        b == (p@.len() <= v@.len() - i && v@.subrange(i as int, i + p@.len()) == p@),
{
    let n = p.len();
    let len = v.len();
    if n > len - i {
        return false;
    }
    let mut k: usize = 0;
    while k < n
        invariant
            n == p@.len(),
            len == v@.len(),
            i + n <= v@.len(),
            k <= n,
            forall|j: int| 0 <= j < k ==> v@[i + j] == p@[j],
        decreases n - k,
    {
        if v[i + k] != p[k] {
            assert(v@.subrange(i as int, i + n)[k as int] != p@[k as int]);
            return false;
        }
        k = k + 1;
    }
    assert(v@.subrange(i as int, i + n) =~= p@);
    true
}

/// Whether `p` occurs in `s`.
pub fn contains_text(s: &str, p: &str) -> (b: bool)
    ensures
        b == occurs(s@, p@),
{
    let v = chars_of(s);
    let pv = chars_of(p);
    let n = v.len();
    let mut i: usize = 0;
    loop
        invariant
            n == v@.len(),
            v@ == s@,
            pv@ == p@,
            i <= n,
            forall|j: int|
                0 <= j < i && j + p@.len() <= s@.len() ==> #[trigger] s@.subrange(j, j + p@.len())
                    != p@,
        decreases n - i,
    {
        if at(&v, i, &pv) {
            return true;
        }
        if i == n {
            proof {
                assert forall|j: int| 0 <= j && j + p@.len() <= s@.len() implies #[trigger] s@.subrange(
                    j,
                    j + p@.len(),
                ) != p@ by {
                    assert(j < i || j == n);
                }
            }
            return false;
        }
        i = i + 1;
    }
}

/// `s` with every occurrence of the non-empty `p` replaced by `r`.
pub fn replace_text(s: &str, p: &str, r: &str) -> (t: String)
    requires
        p@.len() > 0,
    ensures
        t@ == replace_all(s@, p@, r@),
{
    let v = chars_of(s);
    let pv = chars_of(p);
    let n = v.len();
    let mut out = String::new();
    let mut i: usize = 0;
    assert(s@.skip(0) =~= s@);
    assert(out@ + s@ =~= s@);
    while i < n
        invariant
            n == v@.len(),
            v@ == s@,
            pv@ == p@,
            p@.len() > 0,
            i <= n,
            out@ + replace_all(s@.skip(i as int), p@, r@) == replace_all(s@, p@, r@),
        decreases n - i,
    {
        let ghost rest = s@.skip(i as int);
        if at(&v, i, &pv) {
            proof {
                assert(rest.take(p@.len() as int) =~= v@.subrange(i as int, i + p@.len()));
                assert(rest.skip(p@.len() as int) =~= s@.skip(i + p@.len()));
            }
            out.append(r);
            i = i + pv.len();
        } else {
            proof {
                if p@.len() <= rest.len() {
                    assert(rest.take(p@.len() as int) =~= v@.subrange(i as int, i + p@.len()));
                }
                assert(rest.skip(1) =~= s@.skip(i + 1));
                assert(rest[0] == v@[i as int]);
            }
            out.push(v[i]);
            proof {
                assert(out@ + replace_all(s@.skip(i + 1), p@, r@) =~= (out@.drop_last() + (seq![
                    v@[i as int],
                ] + replace_all(rest.skip(1), p@, r@))));
            }
            i = i + 1;
        }
    }
    proof {
        assert(s@.skip(n as int) =~= Seq::<char>::empty());
        assert(out@ + Seq::<char>::empty() =~= out@);
    }
    out
}

// ---------------------------------------------------------------------------
// Mentions
// ---------------------------------------------------------------------------

/// A user mentioned in a message.
#[derive(Debug, Clone)]
pub struct Mention {
    pub id: u64,
    /// Their nickname in the server, if they have one.
    pub nick: Option<String>,
    /// Their account name.
    pub name: String,
}

/// `<@ID>`, or `<@KIND ID>` when a kind is given.
pub open spec fn tag(kind: Seq<char>, id: u64) -> Seq<char> {
    "<@"@ + kind + decimal(id as nat) + ">"@
}

/// The form of a mention found in the text: `<@ID>` if it occurs, else the
/// `<@KIND ID>` form.
pub open spec fn found_tag(s: Seq<char>, kind: Seq<char>, id: u64) -> Seq<char> {
    if occurs(s, tag(Seq::empty(), id)) {
        tag(Seq::empty(), id)
    } else {
        tag(kind, id)
    }
}

/// The text with the users' mentions replaced by `@name`, in order.
pub open spec fn users_written(s: Seq<char>, mentions: Seq<Mention>) -> Seq<char>
    decreases mentions.len(),
{
    if mentions.len() == 0 {
        s
    } else {
        let before = users_written(s, mentions.drop_last());
        let m = mentions.last();
        replace_all(
            before,
            found_tag(before, "!"@, m.id),
            "@"@ + display_name_of(m.nick, m.name@),
        )
    }
}

/// What a role's mention becomes: `@name`, or `@deleted-role` for a role
/// that is gone.
pub open spec fn role_text(name: Option<String>) -> Seq<char> {
    match name {
        Some(n) => "@"@ + n@,
        None => "@deleted-role"@,
    }
}

/// The text with the roles' mentions replaced, in order.
pub open spec fn roles_written(s: Seq<char>, roles: Seq<(u64, Option<String>)>) -> Seq<char>
    decreases roles.len(),
{
    if roles.len() == 0 {
        s
    } else {
        let before = roles_written(s, roles.drop_last());
        let r = roles.last();
        replace_all(before, found_tag(before, "&"@, r.0), role_text(r.1))
    }
}

// ---------------------------------------------------------------------------
// Channel mentions
// ---------------------------------------------------------------------------

/// `s` starts with a channel mention `<#` and 18 digits and `>`.
pub open spec fn channel_mention_at(s: Seq<char>) -> bool {
    &&& s.len() >= 21
    &&& s[0] == '<'
    &&& s[1] == '#'
    &&& forall|k: int| 2 <= k < 20 ==> is_digit(#[trigger] s[k])
    &&& s[20] == '>'
}

/// The id of the channel mentioned at the start of `s`.
pub open spec fn mentioned_id(s: Seq<char>) -> int {
    read_digits(s.subrange(2, 20), 0, 0, u64::MAX as int)->Ok_0
}

/// The name of the first known channel with that id, if any is known and
/// named.
pub open spec fn channel_name(channels: Seq<(u64, Option<String>)>, id: int) -> Option<Seq<char>>
    decreases channels.len(),
{
    if channels.len() == 0 {
        None
    } else if channels[0].0 == id {
        match channels[0].1 {
            Some(n) => Some(n@),
            None => None,
        }
    } else {
        channel_name(channels.drop_first(), id)
    }
}

/// What a channel mention becomes: `#name`, or `#deleted-channel`.
pub open spec fn channel_text(channels: Seq<(u64, Option<String>)>, id: int) -> Seq<char> {
    match channel_name(channels, id) {
        Some(n) => "#"@ + n,
        None => "#deleted-channel"@,
    }
}

/// The text with every channel mention replaced, left to right.
pub open spec fn channels_written(s: Seq<char>, channels: Seq<(u64, Option<String>)>) -> Seq<char>
    decreases s.len(),
{
    if s.len() == 0 {
        s
    } else if channel_mention_at(s) {
        channel_text(channels, mentioned_id(s)) + channels_written(s.skip(21), channels)
    } else {
        seq![s[0]] + channels_written(s.skip(1), channels)
    }
}

/// No channel mention in `s` is of the channel id 0, which is no id.
pub open spec fn no_zero_channel(s: Seq<char>) -> bool {
    forall|i: int|
        0 <= i < s.len() && #[trigger] channel_mention_at(s.skip(i)) ==> mentioned_id(s.skip(i))
            != 0
}

/// The text of a message with mentions of users, roles and channels written
/// out as names.
pub open spec fn clean_content(
    content: Seq<char>,
    mentions: Seq<Mention>,
    roles: Seq<(u64, Option<String>)>,
    channels: Seq<(u64, Option<String>)>,
) -> Seq<char> {
    channels_written(roles_written(users_written(content, mentions), roles), channels)
}

fn tag_text(kind: &str, id: u64) -> (t: String)
    ensures
        t@ == tag(kind@, id),
{
    let mut t = concat(str_to_string("<@"), kind);
    push_decimal(&mut t, id);
    concat(t, ">")
}

fn find_tag(s: &str, kind: &str, id: u64) -> (t: String)
    ensures
        t@ == found_tag(s@, kind@, id),
{
    let plain = tag_text("", id);
    proof {
        reveal_strlit("");
    }
    if contains_text(s, plain.as_str()) {
        plain
    } else {
        tag_text(kind, id)
    }
}

proof fn lemma_tag_nonempty(kind: Seq<char>, id: u64)
    ensures
        tag(kind, id).len() > 0,
{
    reveal_strlit("<@");
}

fn lookup_channel(channels: &Vec<(u64, Option<String>)>, id: u64) -> (r: Option<String>)
    ensures
        match channel_name(channels@, id as int) {
            Some(n) => r matches Some(x) && x@ == n,
            None => r is None,
        },
{
    let mut i: usize = 0;
    assert(channels@.skip(0) =~= channels@);
    while i < channels.len()
        invariant
            i <= channels@.len(),
            channel_name(channels@.skip(i as int), id as int) == channel_name(channels@, id as int),
        decreases channels@.len() - i,
    {
        proof {
            assert(channels@.skip(i as int).drop_first() =~= channels@.skip(i + 1));
            assert(channels@.skip(i as int)[0] == channels@[i as int]);
        }
        if channels[i].0 == id {
            return match &channels[i].1 {
                Some(n) => Some(n.clone()),
                None => None,
            };
        }
        i = i + 1;
    }
    None
}

/// Reads the 18 digits of the channel mention at `v[i..]`.
fn mention_id(v: &Vec<char>, i: usize) -> (id: u64)
    requires
        i + 21 <= v@.len(),
        channel_mention_at(v@.skip(i as int)),
    ensures
        id as int == mentioned_id(v@.skip(i as int)),
{
    let ghost w = v@.skip(i as int);
    let ghost d = w.subrange(2, 20);
    let mut acc: u64 = 0;
    let mut k: usize = 0;
    let len = v.len();
    assert(d =~= v@.subrange(i + 2, i + 20));
    while k < 18
        invariant
            k <= 18,
            len == v@.len(),
            i + 21 <= v@.len(),
            w == v@.skip(i as int),
            d == w.subrange(2, 20),
            d.len() == 18,
            forall|j: int| 0 <= j < 18 ==> is_digit(#[trigger] d[j]),
            forall|j: int| 0 <= j < 18 ==> d[j] == v@[i + 2 + j],
            acc < pow10(k as nat),
            read_digits(d, k as int, acc as int, u64::MAX as int) == read_digits(
                d,
                0,
                0,
                u64::MAX as int,
            ),
        decreases 18 - k,
    {
        let c = v[i + 2 + k];
        assert(c == d[k as int]);
        let digit: u64 = ((c as u32) - ('0' as u32)) as u64;
        proof {
            lemma_pow10_step(k as nat);
            assert(acc * 10 + digit < pow10((k + 1) as nat)) by (nonlinear_arith)
                requires
                    acc < pow10(k as nat),
                    digit < 10,
                    pow10((k + 1) as nat) == 10 * pow10(k as nat),
            ;
            lemma_pow10_18();
            lemma_pow10_mono((k + 1) as nat, 18);
        }
        acc = acc * 10 + digit;
        k = k + 1;
    }
    acc
}

/// Ten to the power `n`.
pub open spec fn pow10(n: nat) -> nat
    decreases n,
{
    if n == 0 {
        1
    } else {
        10 * pow10((n - 1) as nat)
    }
}

proof fn lemma_pow10_step(n: nat)
    ensures
        pow10(n + 1) == 10 * pow10(n),
{
}

proof fn lemma_pow10_18()
    ensures
        pow10(18) == 1000000000000000000,
{
    reveal_with_fuel(pow10, 19);
}

proof fn lemma_pow10_mono(a: nat, b: nat)
    requires
        a <= b,
    ensures
        pow10(a) <= pow10(b),
    decreases b - a,
{
    if a < b {
        lemma_pow10_mono(a, (b - 1) as nat);
    }
}

/// Whether a channel mention starts at `v[i..]`.
fn mention_at(v: &Vec<char>, i: usize) -> (b: bool)
    requires
        i <= v@.len(),
    ensures
        b == channel_mention_at(v@.skip(i as int)),
{
    let n = v.len();
    let ghost rest = v@.skip(i as int);
    if n - i < 21 {
        return false;
    }
    let digits = all_digits(v, i + 2, i + 20);
    proof {
        assert(rest[0] == v@[i as int]);
        assert(rest[1] == v@[i + 1]);
        assert(rest[20] == v@[i + 20]);
        if digits {
            assert forall|k: int| 2 <= k < 20 implies is_digit(#[trigger] rest[k]) by {
                assert(rest[k] == v@[i + k]);
            }
        }
        if channel_mention_at(rest) {
            assert forall|j: int| i + 2 <= j < i + 20 implies is_digit(#[trigger] v@[j]) by {
                assert(rest[j - i] == v@[j]);
            }
        }
    }
    v[i] == '<' && v[i + 1] == '#' && v[i + 20] == '>' && digits
}

/// Replaces every channel mention, left to right.
pub fn write_channels(s: &str, channels: &Vec<(u64, Option<String>)>) -> (t: String)
    requires
        no_zero_channel(s@),
    ensures
        t@ == channels_written(s@, channels@),
{
    let v = chars_of(s);
    let n = v.len();
    let mut out = String::new();
    let mut i: usize = 0;
    assert(s@.skip(0) =~= s@);
    assert(out@ + s@ =~= s@);
    while i < n
        invariant
            n == v@.len(),
            v@ == s@,
            i <= n,
            out@ + channels_written(s@.skip(i as int), channels@) == channels_written(
                s@,
                channels@,
            ),
        decreases n - i,
    {
        let ghost rest = s@.skip(i as int);
        let is_mention = mention_at(&v, i);
        if is_mention {
            let id = mention_id(&v, i);
            let text = match lookup_channel(channels, id) {
                Some(name) => concat(str_to_string("#"), name.as_str()),
                None => str_to_string("#deleted-channel"),
            };
            proof {
                assert(rest.skip(21) =~= s@.skip(i + 21));
            }
            let ghost before = out@;
            out.append(text.as_str());
            proof {
                assert(out@ + channels_written(s@.skip(i + 21), channels@) =~= before + (
                channel_text(channels@, mentioned_id(rest)) + channels_written(
                    rest.skip(21),
                    channels@,
                )));
            }
            i = i + 21;
        } else {
            proof {
                assert(rest.skip(1) =~= s@.skip(i + 1));
                assert(rest[0] == v@[i as int]);
            }
            let ghost before = out@;
            out.push(v[i]);
            proof {
                assert(out@ + channels_written(s@.skip(i + 1), channels@) =~= before + (seq![
                    rest[0],
                ] + channels_written(rest.skip(1), channels@)));
            }
            i = i + 1;
        }
    }
    proof {
        assert(s@.skip(n as int) =~= Seq::<char>::empty());
        assert(out@ + Seq::<char>::empty() =~= out@);
    }
    out
}

/// Whether `v[from..to]` are all ASCII digits.
fn all_digits(v: &Vec<char>, from: usize, to: usize) -> (b: bool)
    requires
        from <= to <= v@.len(),
    ensures
        b == forall|k: int| from <= k < to ==> is_digit(#[trigger] v@[k]),
{
    let mut k = from;
    while k < to
        invariant
            from <= k <= to <= v@.len(),
            forall|j: int| from <= j < k ==> is_digit(#[trigger] v@[j]),
        decreases to - k,
    {
        if !('0' <= v[k] && v[k] <= '9') {
            return false;
        }
        k = k + 1;
    }
    true
}

/// Writes out the users' mentions as `@name`, in order.
pub fn write_users(content: &str, mentions: &Vec<Mention>) -> (t: String)
    ensures
        t@ == users_written(content@, mentions@),
{
    let mut result = str_to_string(content);
    let mut i: usize = 0;
    assert(mentions@.take(0) =~= Seq::<Mention>::empty());
    while i < mentions.len()
        invariant
            i <= mentions@.len(),
            result@ == users_written(content@, mentions@.take(i as int)),
        decreases mentions@.len() - i,
    {
        let m = &mentions[i];
        let dirty = find_tag(result.as_str(), "!", m.id);
        let shown = crate::inbound::display_name(&m.nick, m.name.as_str());
        let name = concat(str_to_string("@"), shown.as_str());
        proof {
            lemma_tag_nonempty(Seq::empty(), m.id);
            lemma_tag_nonempty("!"@, m.id);
            assert(mentions@.take(i + 1).drop_last() =~= mentions@.take(i as int));
            assert(mentions@.take(i + 1).last() == mentions@[i as int]);
        }
        result = replace_text(result.as_str(), dirty.as_str(), name.as_str());
        i = i + 1;
    }
    assert(mentions@.take(mentions@.len() as int) =~= mentions@);
    result
}

/// Writes out the roles' mentions as `@role`, or `@deleted-role` for a role
/// that is gone, in order.
pub fn write_roles(s: &str, roles: &Vec<(u64, Option<String>)>) -> (t: String)
    ensures
        t@ == roles_written(s@, roles@),
{
    let mut result = str_to_string(s);
    let mut j: usize = 0;
    assert(roles@.take(0) =~= Seq::<(u64, Option<String>)>::empty());
    while j < roles.len()
        invariant
            j <= roles@.len(),
            result@ == roles_written(s@, roles@.take(j as int)),
        decreases roles@.len() - j,
    {
        let id = roles[j].0;
        let dirty = find_tag(result.as_str(), "&", id);
        let text = match &roles[j].1 {
            Some(n) => concat(str_to_string("@"), n.as_str()),
            None => str_to_string("@deleted-role"),
        };
        proof {
            lemma_tag_nonempty(Seq::empty(), id);
            lemma_tag_nonempty("&"@, id);
            assert(roles@.take(j + 1).drop_last() =~= roles@.take(j as int));
            assert(roles@.take(j + 1).last() == roles@[j as int]);
        }
        result = replace_text(result.as_str(), dirty.as_str(), text.as_str());
        j = j + 1;
    }
    assert(roles@.take(roles@.len() as int) =~= roles@);
    result
}

/// Whether no channel mention in the text is of the id 0.
pub fn no_zero_channel_exec(s: &str) -> (b: bool)
    ensures
        b == no_zero_channel(s@),
{
    let v = chars_of(s);
    let n = v.len();
    let mut i: usize = 0;
    while i < n
        invariant
            n == v@.len(),
            v@ == s@,
            i <= n,
            forall|k: int|
                0 <= k < i && #[trigger] channel_mention_at(s@.skip(k)) ==> mentioned_id(s@.skip(k))
                    != 0,
        decreases n - i,
    {
        let ghost rest = s@.skip(i as int);
        let is_mention = mention_at(&v, i);
        if is_mention {
            if mention_id(&v, i) == 0 {
                return false;
            }
        }
        i = i + 1;
    }
    true
}

/// Writes out the mentions of a message: each user mention becomes
/// `@name`, each role mention `@role` (or `@deleted-role`), and each channel
/// mention `#channel` (or `#deleted-channel`).  No channel mention may be of
/// the id 0, which names no channel: check with [`no_zero_channel_exec`] on
/// the text once users and roles are written out.
pub fn content_clean(
    content: &str,
    mentions: &Vec<Mention>,
    roles: &Vec<(u64, Option<String>)>,
    channels: &Vec<(u64, Option<String>)>,
) -> (t: String)
    requires
        no_zero_channel(roles_written(users_written(content@, mentions@), roles@)),
    ensures
        t@ == clean_content(content@, mentions@, roles@, channels@),
{
    let users = write_users(content, mentions);
    let roles_done = write_roles(users.as_str(), roles);
    write_channels(roles_done.as_str(), channels)
}

} // verus!
