//! Validation of player names and cleaning of text sent into Minecraft chat.

use crate::text::{ascii_word, chars_of, string_of, trim, trim_bounds};
use vstd::prelude::*;

verus! {

/// A Minecraft username: 1 to 16 ASCII letters, digits or underscores.
pub open spec fn valid_ign(s: Seq<char>) -> bool {
    1 <= s.len() <= 16 && forall|i: int| 0 <= i < s.len() ==> ascii_word(#[trigger] s[i])
}

/// Whether `s` is a valid Minecraft username.
pub fn is_valid_ign(s: &str) -> (b: bool)
    ensures
        b == valid_ign(s@),
{
    let v = chars_of(s);
    let n = v.len();
    if n < 1 || n > 16 {
        return false;
    }
    let mut i: usize = 0;
    while i < n
        invariant
            n == v@.len(),
            v@ == s@,
            i <= n,
            forall|k: int| 0 <= k < i ==> ascii_word(#[trigger] v@[k]),
        decreases n - i,
    {
        let c = v[i];
        if !(('a' <= c && c <= 'z') || ('A' <= c && c <= 'Z') || ('0' <= c && c <= '9') || c
            == '_') {
            assert(!ascii_word(s@[i as int]));
            assert(!valid_ign(s@));
            return false;
        }
        i = i + 1;
    }
    true
}

/// Characters that may be sent into Minecraft chat: printable ASCII.
pub open spec fn chat_safe(c: char) -> bool {
    ' ' <= c && c <= '~'
}

/// `s` with every character that may not be sent into chat removed.
pub open spec fn clean(s: Seq<char>) -> Seq<char>
    decreases s.len(),
{
    if s.len() == 0 {
        s
    } else if chat_safe(s.last()) {
        clean(s.drop_last()).push(s.last())
    } else {
        clean(s.drop_last())
    }
}

/// The cleaned text of `v[0..to]`.
fn clean_prefix(v: &Vec<char>, to: usize) -> (r: String)
    requires
        to <= v@.len(),
    ensures
        r@ == clean(v@.subrange(0, to as int)),
{
    let mut r = String::new();
    let mut i: usize = 0;
    assert(v@.subrange(0, 0) =~= Seq::<char>::empty());
    while i < to
        invariant
            i <= to <= v@.len(),
            r@ == clean(v@.subrange(0, i as int)),
        decreases to - i,
    {
        let c = v[i];
        assert(v@.subrange(0, i + 1).drop_last() =~= v@.subrange(0, i as int));
        if ' ' <= c && c <= '~' {
            r.push(c);
        }
        i = i + 1;
    }
    r
}

/// Removes every character that may not be sent into chat.
pub fn clean_string(s: &str) -> (r: String)
    ensures
        r@ == clean(s@),
{
    let v = chars_of(s);
    let n = v.len();
    assert(v@.subrange(0, n as int) =~= v@);
    clean_prefix(&v, n)
}

pub proof fn lemma_clean_safe(s: Seq<char>)
    ensures
        forall|i: int| 0 <= i < clean(s).len() ==> chat_safe(#[trigger] clean(s)[i]),
        clean(s).len() <= s.len(),
    decreases s.len(),
{
    if s.len() > 0 {
        lemma_clean_safe(s.drop_last());
    }
}

/// Cleaning keeps a text that is already clean as it is.
pub proof fn lemma_clean_keeps_safe(s: Seq<char>)
    requires
        forall|i: int| 0 <= i < s.len() ==> chat_safe(#[trigger] s[i]),
    ensures
        clean(s) == s,
    decreases s.len(),
{
    if s.len() > 0 {
        lemma_clean_keeps_safe(s.drop_last());
        assert(s.drop_last().push(s.last()) =~= s);
    }
}

/// Cleaning twice is cleaning once.
pub proof fn lemma_clean_idempotent(s: Seq<char>)
    ensures
        clean(clean(s)) == clean(s),
{
    lemma_clean_safe(s);
    lemma_clean_keeps_safe(clean(s));
}

/// Characters a guild rank name may hold (`char::is_alphanumeric` or a space).
pub uninterp spec fn alphanumeric(c: char) -> bool;

/// Calls `char::is_alphanumeric`.  Claimed: the result is `alphanumeric(c)`,
/// and on ASCII characters it holds exactly for letters and digits.
#[verifier::external_body]
fn is_alphanumeric(c: char) -> (b: bool)
    ensures
        b == alphanumeric(c),
        (c as u32) < 128 ==> (b <==> (ascii_word(c) && c != '_')),
{
    c.is_alphanumeric()
}

/// Rank-name characters: alphanumeric or a space.
pub open spec fn rank_char(c: char) -> bool {
    alphanumeric(c) || c == ' '
}

/// Whether a character may stand in a rank name; on ASCII characters exactly
/// the letters, the digits and the space.
pub fn is_rank_char(c: char) -> (b: bool)
    ensures
        b == rank_char(c),
        (c as u32) < 128 ==> (b <==> ((ascii_word(c) && c != '_') || c == ' ')),
{
    is_alphanumeric(c) || c == ' '
}

/// `s` keeping only rank-name characters.
pub open spec fn rank_chars(s: Seq<char>) -> Seq<char>
    decreases s.len(),
{
    if s.len() == 0 {
        s
    } else if rank_char(s.last()) {
        rank_chars(s.drop_last()).push(s.last())
    } else {
        rank_chars(s.drop_last())
    }
}

/// The guild rank a slash command argument names: its alphanumeric
/// characters and spaces, trimmed, then cleaned for chat.
pub open spec fn rank_name(s: Seq<char>) -> Seq<char> {
    clean(trim(rank_chars(s)))
}

/// Computes [`rank_name`].
pub fn clean_rank(s: &str) -> (r: String)
    ensures
        r@ == rank_name(s@),
{
    let v = chars_of(s);
    let n = v.len();
    let mut kept: Vec<char> = Vec::new();
    let mut i: usize = 0;
    assert(v@.subrange(0, 0) =~= Seq::<char>::empty());
    while i < n
        invariant
            i <= n == v@.len(),
            kept@ == rank_chars(v@.subrange(0, i as int)),
        decreases n - i,
    {
        let c = v[i];
        assert(v@.subrange(0, i + 1).drop_last() =~= v@.subrange(0, i as int));
        if is_rank_char(c) {
            kept.push(c);
        }
        i = i + 1;
    }
    assert(v@.subrange(0, n as int) =~= v@);
    let (a, b) = trim_bounds(&kept);
    let t = string_of(&kept, a, b);
    let tv = chars_of(t.as_str());
    let m = tv.len();
    assert(tv@.subrange(0, m as int) =~= tv@);
    clean_prefix(&tv, m)
}

} // verus!
