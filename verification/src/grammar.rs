//! The pieces of the chat-line grammar, stated over character sequences and
//! matched in the priority order of a leftmost-first regex engine.
//!
//! A match reports the spans `(start, end)` of its captures.  In a phrase the
//! character U+0000 stands for the regex `.`: any character but a newline.

use crate::text::{is_white_space, is_word_char, white_space, word_char};
use vstd::prelude::*;

verus! {

/// A captured span `[start, end)`.
pub type Span = (int, int);

/// The spans held by an executable capture list.
pub open spec fn spans_of(v: Seq<(usize, usize)>) -> Seq<Span> {
    v.map_values(|p: (usize, usize)| (p.0 as int, p.1 as int))
}

/// End of the longest run of word characters that starts at `i`.
pub open spec fn run_end(s: Seq<char>, i: int) -> int
    decreases s.len() - i,
{
    if 0 <= i < s.len() && word_char(s[i]) {
        run_end(s, i + 1)
    } else {
        i
    }
}

/// End of the longest run of non-whitespace characters that starts at `i`.
pub open spec fn solid_end(s: Seq<char>, i: int) -> int
    decreases s.len() - i,
{
    if 0 <= i < s.len() && !white_space(s[i]) {
        solid_end(s, i + 1)
    } else {
        i
    }
}

/// No newline in `s[from..to]`.
pub open spec fn no_newline(s: Seq<char>, from: int, to: int) -> bool {
    forall|k: int| from <= k < to ==> #[trigger] s[k] != '\n'
}

/// One character of a phrase: U+0000 matches anything but a newline.
pub open spec fn phrase_char_ok(c: char, p: char) -> bool {
    if p == '\0' {
        c != '\n'
    } else {
        c == p
    }
}

/// The phrase `lit` matches `s` at position `p`.
pub open spec fn lit_at(s: Seq<char>, p: int, lit: Seq<char>) -> bool {
    &&& 0 <= p
    &&& p + lit.len() <= s.len()
    &&& forall|k: int| 0 <= k < lit.len() ==> phrase_char_ok(#[trigger] s[p + k], lit[k])
}

/// The fixed phrases of the grammar.
#[derive(Clone, Copy, PartialEq, Eq, Debug)]
pub enum Phrase {
    JoinedShort,
    LeftShort,
    JoinedGuild,
    LeftGuild,
    KickedBy,
    Bang,
    HasMuted,
    HasUnmuted,
    For,
    GuildChatMutedFor,
    GuildChatUnmuted,
    PromotedFrom,
    DemotedFrom,
    NotInYourGuild,
    AlreadyHighest,
    AlreadyLowest,
    InAnotherGuild,
    InYourGuild,
    InvitedToGuild,
    OfflineInvite,
    AlreadyInvited,
    MasterNoPromote,
    MasterNoDemote,
    Quote,
}

/// The text of each phrase.
pub open spec fn phrase(p: Phrase) -> Seq<char> {
    match p {
        Phrase::JoinedShort => " joined."@,
        Phrase::LeftShort => " left."@,
        Phrase::JoinedGuild => " joined the guild!"@,
        Phrase::LeftGuild => " left the guild!"@,
        Phrase::KickedBy => " was kicked from the guild by "@,
        Phrase::Bang => "!"@,
        Phrase::HasMuted => " has muted "@,
        Phrase::HasUnmuted => " has unmuted "@,
        Phrase::For => " for "@,
        Phrase::GuildChatMutedFor => " has muted the guild chat for "@,
        Phrase::GuildChatUnmuted => " has unmuted the guild chat!"@,
        Phrase::PromotedFrom => " was promoted from "@,
        Phrase::DemotedFrom => " was demoted from "@,
        Phrase::NotInYourGuild => " is not in your guild!"@,
        Phrase::AlreadyHighest => " is already the highest rank you've created!"@,
        Phrase::AlreadyLowest => " is already the lowest rank you've created!"@,
        Phrase::InAnotherGuild => " is already in another guild!"@,
        Phrase::InYourGuild => " is already in your guild!"@,
        Phrase::InvitedToGuild => " to your guild\0 They have 5 minutes to accept."@,
        Phrase::OfflineInvite => "! They will have 5 minutes to accept once they come online!"@,
        Phrase::AlreadyInvited => " to your guild\0 Wait for them to accept!"@,
        Phrase::MasterNoPromote => " is the guild master so can't be promoted anymore!"@,
        Phrase::MasterNoDemote => " is the guild master so can't be demoted!"@,
        Phrase::Quote => "'"@,
    }
}

pub fn phrase_text(p: Phrase) -> (t: &'static str)
    ensures
        t@ == phrase(p),
{
    match p {
        Phrase::JoinedShort => " joined.",
        Phrase::LeftShort => " left.",
        Phrase::JoinedGuild => " joined the guild!",
        Phrase::LeftGuild => " left the guild!",
        Phrase::KickedBy => " was kicked from the guild by ",
        Phrase::Bang => "!",
        Phrase::HasMuted => " has muted ",
        Phrase::HasUnmuted => " has unmuted ",
        Phrase::For => " for ",
        Phrase::GuildChatMutedFor => " has muted the guild chat for ",
        Phrase::GuildChatUnmuted => " has unmuted the guild chat!",
        Phrase::PromotedFrom => " was promoted from ",
        Phrase::DemotedFrom => " was demoted from ",
        Phrase::NotInYourGuild => " is not in your guild!",
        Phrase::AlreadyHighest => " is already the highest rank you've created!",
        Phrase::AlreadyLowest => " is already the lowest rank you've created!",
        Phrase::InAnotherGuild => " is already in another guild!",
        Phrase::InYourGuild => " is already in your guild!",
        Phrase::InvitedToGuild => " to your guild\0 They have 5 minutes to accept.",
        Phrase::OfflineInvite => "! They will have 5 minutes to accept once they come online!",
        Phrase::AlreadyInvited => " to your guild\0 Wait for them to accept!",
        Phrase::MasterNoPromote => " is the guild master so can't be promoted anymore!",
        Phrase::MasterNoDemote => " is the guild master so can't be demoted!",
        Phrase::Quote => "'",
    }
}

/// The grammar pieces that follow an optional lazy rank `(?:\[.+?\] )?`.
#[derive(Clone, Copy, PartialEq, Eq, Debug)]
pub enum Simple {
    /// `(\w+)PHRASE$`
    WordThen(Phrase),
    /// `(\w+)PHRASE`, with anything after it
    WordBefore(Phrase),
    /// `(\w+)$`
    Word,
    /// `(\w+)PHRASE(\w+)$`
    WordPhraseWord(Phrase),
    /// `(\w+)PHRASE(.+) to (.+)$`
    FromTo(Phrase),
}

/// `(\w+)PHRASE(?:\[.+?\] )?` followed by the inner piece of the phrase.
#[derive(Clone, Copy, PartialEq, Eq, Debug)]
pub enum Tail {
    Plain(Simple),
    Ranked(Phrase),
}

/// The piece that follows the second rank of a ranked tail.
pub open spec fn inner(p: Phrase) -> Simple {
    match p {
        Phrase::HasMuted => Simple::WordPhraseWord(Phrase::For),
        Phrase::HasUnmuted => Simple::Word,
        _ => Simple::WordThen(Phrase::Bang),
    }
}

fn inner_exec(p: Phrase) -> (r: Simple)
    ensures
        r == inner(p),
{
    match p {
        Phrase::HasMuted => Simple::WordPhraseWord(Phrase::For),
        Phrase::HasUnmuted => Simple::Word,
        _ => Simple::WordThen(Phrase::Bang),
    }
}

/// Start of the last ` to ` in `s[lo+1..=j]`, or -1.
pub open spec fn last_to(s: Seq<char>, lo: int, j: int) -> int
    decreases j - lo,
{
    if j < lo + 1 {
        -1
    } else if lit_at(s, j, " to "@) {
        j
    } else {
        last_to(s, lo, j - 1)
    }
}

/// The captures of a simple piece that starts at `b`.
pub open spec fn simple(x: Simple, s: Seq<char>, b: int) -> Option<Seq<Span>> {
    let e = run_end(s, b);
    if !(0 <= b < e) {
        None
    } else {
        match x {
            Simple::WordThen(p) => if lit_at(s, e, phrase(p)) && e + phrase(p).len() == s.len() {
                Some(seq![(b, e)])
            } else {
                None
            },
            Simple::WordBefore(p) => if lit_at(s, e, phrase(p)) {
                Some(seq![(b, e)])
            } else {
                None
            },
            Simple::Word => if e == s.len() {
                Some(seq![(b, e)])
            } else {
                None
            },
            Simple::WordPhraseWord(p) => {
                let b2 = e + phrase(p).len();
                let e2 = run_end(s, b2);
                if lit_at(s, e, phrase(p)) && b2 < e2 && e2 == s.len() {
                    Some(seq![(b, e), (b2, e2)])
                } else {
                    None
                }
            },
            Simple::FromTo(p) => {
                let f = e + phrase(p).len();
                let j = last_to(s, f, s.len() - 5);
                if lit_at(s, e, phrase(p)) && no_newline(s, f, s.len() as int) && j >= 0 {
                    Some(seq![(b, e), (f, j), (j + 4, s.len() as int)])
                } else {
                    None
                }
            },
        }
    }
}

/// `s[b..k]` can be the lazy rank `\[.+?\] `.
pub open spec fn rank_end(s: Seq<char>, b: int, k: int) -> bool {
    &&& 0 <= b
    &&& b + 4 <= k <= s.len()
    &&& s[b] == '['
    &&& s[k - 2] == ']'
    &&& s[k - 1] == ' '
    &&& no_newline(s, b + 1, k - 2)
}

/// `(?:\[.+?\] )?` then a simple piece, trying rank ends from `k` on, and the
/// piece without a rank last.
pub open spec fn rank_then_simple(x: Simple, s: Seq<char>, b: int, k: int) -> Option<Seq<Span>>
    decreases s.len() + 1 - k,
{
    if k > s.len() {
        simple(x, s, b)
    } else if rank_end(s, b, k) && simple(x, s, k) is Some {
        simple(x, s, k)
    } else {
        rank_then_simple(x, s, b, k + 1)
    }
}

/// The captures of a tail that starts at `b`.
pub open spec fn tail(t: Tail, s: Seq<char>, b: int) -> Option<Seq<Span>> {
    match t {
        Tail::Plain(x) => simple(x, s, b),
        Tail::Ranked(p) => {
            let e = run_end(s, b);
            let n = e + phrase(p).len();
            if 0 <= b < e && lit_at(s, e, phrase(p)) {
                match rank_then_simple(inner(p), s, n, n + 4) {
                    Some(c) => Some(seq![(b, e)] + c),
                    None => None,
                }
            } else {
                None
            }
        },
    }
}

/// `(?:\[.+?\] )?` then a tail, trying rank ends from `k` on.
pub open spec fn rank_then(t: Tail, s: Seq<char>, b: int, k: int) -> Option<Seq<Span>>
    decreases s.len() + 1 - k,
{
    if k > s.len() {
        tail(t, s, b)
    } else if rank_end(s, b, k) && tail(t, s, k) is Some {
        tail(t, s, k)
    } else {
        rank_then(t, s, b, k + 1)
    }
}

/// `(?:\[.+?\] )?` then the tail, at position `b`.
pub open spec fn ranked(t: Tail, s: Seq<char>, b: int) -> Option<Seq<Span>> {
    rank_then(t, s, b, b + 4)
}

// ---------------------------------------------------------------------------
// Shape of the captures
// ---------------------------------------------------------------------------

/// Every span is ordered and lies inside `[0, n]`.
pub open spec fn spans_ok(c: Seq<Span>, n: int) -> bool {
    forall|i: int| 0 <= i < c.len() ==> 0 <= (#[trigger] c[i]).0 <= c[i].1 <= n
}

/// How many captures a simple piece has.
pub open spec fn simple_arity(x: Simple) -> int {
    match x {
        Simple::WordPhraseWord(_) => 2,
        Simple::FromTo(_) => 3,
        _ => 1,
    }
}

/// How many captures a tail has.
pub open spec fn tail_arity(t: Tail) -> int {
    match t {
        Tail::Plain(x) => simple_arity(x),
        Tail::Ranked(p) => 1 + simple_arity(inner(p)),
    }
}

pub proof fn lemma_run_end(s: Seq<char>, i: int)
    requires
        0 <= i <= s.len(),
    ensures
        i <= run_end(s, i) <= s.len(),
        forall|k: int| i <= k < run_end(s, i) ==> word_char(#[trigger] s[k]),
        run_end(s, i) == s.len() || !word_char(s[run_end(s, i)]),
    decreases s.len() - i,
{
    if i < s.len() && word_char(s[i]) {
        lemma_run_end(s, i + 1);
    }
}


pub proof fn lemma_last_to(s: Seq<char>, lo: int, j: int)
    ensures
        last_to(s, lo, j) == -1 || (lo + 1 <= last_to(s, lo, j) <= j && lit_at(
            s,
            last_to(s, lo, j),
            " to "@,
        )),
    decreases j - lo,
{
    if j >= lo + 1 && !lit_at(s, j, " to "@) {
        lemma_last_to(s, lo, j - 1);
    }
}

pub proof fn lemma_simple_within(x: Simple, s: Seq<char>, b: int)
    requires
        0 <= b <= s.len(),
    ensures
        simple(x, s, b) matches Some(c) ==> spans_ok(c, s.len() as int) && c.len() == simple_arity(
            x,
        ),
{
    lemma_run_end(s, b);
    let e = run_end(s, b);
    match x {
        Simple::WordPhraseWord(p) => {
            let b2 = e + phrase(p).len();
            if lit_at(s, e, phrase(p)) {
                lemma_run_end(s, b2);
            }
        },
        Simple::FromTo(p) => {
            let f = e + phrase(p).len();
            lemma_last_to(s, f, s.len() - 5);
            reveal_strlit(" to ");
        },
        _ => {},
    }
}

pub proof fn lemma_rank_then_simple_within(x: Simple, s: Seq<char>, b: int, k: int)
    requires
        0 <= b <= s.len(),
    ensures
        rank_then_simple(x, s, b, k) matches Some(c) ==> spans_ok(c, s.len() as int) && c.len()
            == simple_arity(x),
    decreases s.len() + 1 - k,
{
    if k > s.len() {
        lemma_simple_within(x, s, b);
    } else if rank_end(s, b, k) && simple(x, s, k) is Some {
        lemma_simple_within(x, s, k);
    } else {
        lemma_rank_then_simple_within(x, s, b, k + 1);
    }
}

pub proof fn lemma_tail_within(t: Tail, s: Seq<char>, b: int)
    requires
        0 <= b <= s.len(),
    ensures
        tail(t, s, b) matches Some(c) ==> spans_ok(c, s.len() as int) && c.len() == tail_arity(t),
{
    match t {
        Tail::Plain(x) => lemma_simple_within(x, s, b),
        Tail::Ranked(p) => {
            lemma_run_end(s, b);
            let e = run_end(s, b);
            let n = e + phrase(p).len();
            if 0 <= b < e && lit_at(s, e, phrase(p)) {
                lemma_rank_then_simple_within(inner(p), s, n, n + 4);
                if let Some(c) = rank_then_simple(inner(p), s, n, n + 4) {
                    let r = seq![(b, e)] + c;
                    assert forall|i: int| 0 <= i < r.len() implies 0 <= (#[trigger] r[i]).0
                        <= r[i].1 <= s.len() by {
                        if i > 0 {
                            assert(r[i] == c[i - 1]);
                        }
                    }
                }
            }
        },
    }
}

pub proof fn lemma_rank_then_within(t: Tail, s: Seq<char>, b: int, k: int)
    requires
        0 <= b <= s.len(),
    ensures
        rank_then(t, s, b, k) matches Some(c) ==> spans_ok(c, s.len() as int) && c.len()
            == tail_arity(t),
    decreases s.len() + 1 - k,
{
    if k > s.len() {
        lemma_tail_within(t, s, b);
    } else if rank_end(s, b, k) && tail(t, s, k) is Some {
        lemma_tail_within(t, s, k);
    } else {
        lemma_rank_then_within(t, s, b, k + 1);
    }
}

pub proof fn lemma_ranked_within(t: Tail, s: Seq<char>, b: int)
    requires
        0 <= b <= s.len(),
    ensures
        ranked(t, s, b) matches Some(c) ==> spans_ok(c, s.len() as int) && c.len() == tail_arity(t),
{
    lemma_rank_then_within(t, s, b, b + 4);
}

// ---------------------------------------------------------------------------
// Executable matchers
// ---------------------------------------------------------------------------

/// End of the run of word characters at `i`.
pub fn word_end(s: &Vec<char>, i: usize) -> (e: usize)
    requires
        i <= s@.len(),
    ensures
        e as int == run_end(s@, i as int),
        i <= e <= s@.len(),
{
    let mut j = i;
    while j < s.len() && is_word_char(s[j])
        invariant
            i <= j <= s@.len(),
            run_end(s@, j as int) == run_end(s@, i as int),
        decreases s@.len() - j,
    {
        j = j + 1;
    }
    j
}

/// End of the run of non-whitespace characters at `i`.
pub fn solid_end_exec(s: &Vec<char>, i: usize) -> (e: usize)
    requires
        i <= s@.len(),
    ensures
        e as int == solid_end(s@, i as int),
        i <= e <= s@.len(),
{
    let mut j = i;
    while j < s.len() && !is_white_space(s[j])
        invariant
            i <= j <= s@.len(),
            solid_end(s@, j as int) == solid_end(s@, i as int),
        decreases s@.len() - j,
    {
        j = j + 1;
    }
    j
}

/// Whether `s[from..to]` holds no newline.
pub fn no_newline_exec(s: &Vec<char>, from: usize, to: usize) -> (b: bool)
    requires
        from <= to <= s@.len(),
    ensures
        b == no_newline(s@, from as int, to as int),
{
    let mut i = from;
    while i < to
        invariant
            from <= i <= to <= s@.len(),
            no_newline(s@, from as int, i as int),
        decreases to - i,
    {
        if s[i] == '\n' {
            return false;
        }
        i = i + 1;
    }
    true
}

/// Whether the phrase text `lit` matches at `p`.
pub fn lit_at_exec(s: &Vec<char>, p: usize, lit: &str) -> (b: bool)
    ensures
        b == lit_at(s@, p as int, lit@),
{
    let n = lit.unicode_len();
    let len = s.len();
    if n > len || p > len - n {
        return false;
    }
    let mut k: usize = 0;
    while k < n
        invariant
            n == lit@.len(),
            len == s@.len(),
            p + n <= s@.len(),
            k <= n,
            forall|i: int| 0 <= i < k ==> phrase_char_ok(#[trigger] s@[p + i], lit@[i]),
        decreases n - k,
    {
        let c = lit.get_char(k);
        let d = s[p + k];
        let ok = if c == '\0' {
            d != '\n'
        } else {
            d == c
        };
        if !ok {
            assert(!phrase_char_ok(s@[p + k as int], lit@[k as int]));
            return false;
        }
        k = k + 1;
    }
    true
}

/// Start of the last ` to ` in `s[lo+1..=j]`.
fn last_to_exec(s: &Vec<char>, lo: usize, j: usize) -> (r: Option<usize>)
    requires
        j + 5 <= s@.len(),
    ensures
        match r {
            Some(x) => x as int == last_to(s@, lo as int, j as int) && x <= j,
            None => last_to(s@, lo as int, j as int) == -1,
        },
{
    let mut i = j;
    loop
        invariant
            i <= j,
            j + 5 <= s@.len(),
            last_to(s@, lo as int, i as int) == last_to(s@, lo as int, j as int),
        decreases i,
    {
        if lo == usize::MAX || i < lo + 1 {
            assert(lo as int + 1 > i as int);
            return None;
        }
        if lit_at_exec(s, i, " to ") {
            return Some(i);
        }
        i = i - 1;
    }
}

fn one_span(b: usize, e: usize) -> (r: Vec<(usize, usize)>)
    ensures
        spans_of(r@) == seq![(b as int, e as int)],
{
    let mut r: Vec<(usize, usize)> = Vec::new();
    r.push((b, e));
    assert(spans_of(r@) =~= seq![(b as int, e as int)]);
    r
}

/// Matches a simple piece at `b`.
pub fn simple_exec(x: Simple, s: &Vec<char>, b: usize) -> (r: Option<Vec<(usize, usize)>>)
    requires
        b <= s@.len(),
    ensures
        match r {
            Some(v) => simple(x, s@, b as int) == Some(spans_of(v@)),
            None => simple(x, s@, b as int) is None,
        },
{
    let len = s.len();
    let e = word_end(s, b);
    if e == b {
        return None;
    }
    match x {
        Simple::WordThen(p) => {
            let lit = phrase_text(p);
            let n = lit.unicode_len();
            if lit_at_exec(s, e, lit) && e + n == len {
                Some(one_span(b, e))
            } else {
                None
            }
        },
        Simple::WordBefore(p) => {
            let lit = phrase_text(p);
            if lit_at_exec(s, e, lit) {
                Some(one_span(b, e))
            } else {
                None
            }
        },
        Simple::Word => {
            if e == s.len() {
                Some(one_span(b, e))
            } else {
                None
            }
        },
        Simple::WordPhraseWord(p) => {
            let lit = phrase_text(p);
            let n = lit.unicode_len();
            if !lit_at_exec(s, e, lit) {
                return None;
            }
            let b2 = e + n;
            let e2 = word_end(s, b2);
            if b2 < e2 && e2 == s.len() {
                let mut r: Vec<(usize, usize)> = Vec::new();
                r.push((b, e));
                r.push((b2, e2));
                assert(spans_of(r@) =~= seq![(b as int, e as int), (b2 as int, e2 as int)]);
                Some(r)
            } else {
                None
            }
        },
        Simple::FromTo(p) => {
            let lit = phrase_text(p);
            let n = lit.unicode_len();
            if !lit_at_exec(s, e, lit) {
                return None;
            }
            let f = e + n;
            if !no_newline_exec(s, f, s.len()) {
                return None;
            }
            if s.len() < 5 {
                assert(last_to(s@, f as int, s@.len() - 5) == -1);
                return None;
            }
            match last_to_exec(s, f, s.len() - 5) {
                Some(j) => {
                    let mut r: Vec<(usize, usize)> = Vec::new();
                    r.push((b, e));
                    r.push((f, j));
                    r.push((j + 4, s.len()));
                    assert(spans_of(r@) =~= seq![
                        (b as int, e as int),
                        (f as int, j as int),
                        (j + 4, s@.len() as int),
                    ]);
                    Some(r)
                },
                None => None,
            }
        },
    }
}

/// Whether `s[b..k]` can be a lazy rank.
fn rank_end_exec(s: &Vec<char>, b: usize, k: usize) -> (r: bool)
    ensures
        r == rank_end(s@, b as int, k as int),
{
    if k > s.len() || b > k || k - b < 4 {
        return false;
    }
    s[b] == '[' && s[k - 2] == ']' && s[k - 1] == ' ' && no_newline_exec(s, b + 1, k - 2)
}

/// Matches `(?:\[.+?\] )?` then a simple piece at `b`.
pub fn rank_then_simple_exec(x: Simple, s: &Vec<char>, b: usize) -> (r: Option<Vec<(usize, usize)>>)
    requires
        b <= s@.len(),
    ensures
        match r {
            Some(v) => rank_then_simple(x, s@, b as int, b + 4) == Some(spans_of(v@)),
            None => rank_then_simple(x, s@, b as int, b + 4) is None,
        },
{
    let len = s.len();
    if len - b < 4 {
        return simple_exec(x, s, b);
    }
    let mut k = b + 4;
    loop
        invariant
            b + 4 <= k <= len,
            len == s@.len(),
            rank_then_simple(x, s@, b as int, k as int) == rank_then_simple(
                x,
                s@,
                b as int,
                b + 4,
            ),
        decreases len - k,
    {
        if rank_end_exec(s, b, k) {
            match simple_exec(x, s, k) {
                Some(v) => {
                    return Some(v);
                },
                None => {},
            }
        }
        if k == len {
            assert(rank_then_simple(x, s@, b as int, k as int) == rank_then_simple(x, s@, b as int, k + 1));
            assert(rank_then_simple(x, s@, b as int, k + 1) == simple(x, s@, b as int));
            return simple_exec(x, s, b);
        }
        k = k + 1;
    }
}

/// Matches a tail at `b`.
pub fn tail_exec(t: Tail, s: &Vec<char>, b: usize) -> (r: Option<Vec<(usize, usize)>>)
    requires
        b <= s@.len(),
    ensures
        match r {
            Some(v) => tail(t, s@, b as int) == Some(spans_of(v@)),
            None => tail(t, s@, b as int) is None,
        },
{
    let len = s.len();
    match t {
        Tail::Plain(x) => simple_exec(x, s, b),
        Tail::Ranked(p) => {
            let e = word_end(s, b);
            if e == b {
                return None;
            }
            let lit = phrase_text(p);
            let n = lit.unicode_len();
            if !lit_at_exec(s, e, lit) {
                return None;
            }
            let x = inner_exec(p);
            match rank_then_simple_exec(x, s, e + n) {
                Some(c) => {
                    let mut r: Vec<(usize, usize)> = Vec::new();
                    r.push((b, e));
                    let ghost c0 = c@;
                    let mut c = c;
                    r.append(&mut c);
                    assert(spans_of(r@) =~= seq![(b as int, e as int)] + spans_of(c0));
                    Some(r)
                },
                None => None,
            }
        },
    }
}

/// Matches `(?:\[.+?\] )?` then a tail at `b`.
pub fn ranked_exec(t: Tail, s: &Vec<char>, b: usize) -> (r: Option<Vec<(usize, usize)>>)
    requires
        b <= s@.len(),
    ensures
        match r {
            Some(v) => ranked(t, s@, b as int) == Some(spans_of(v@)),
            None => ranked(t, s@, b as int) is None,
        },
{
    let len = s.len();
    if len - b < 4 {
        return tail_exec(t, s, b);
    }
    let mut k = b + 4;
    loop
        invariant
            b + 4 <= k <= len,
            len == s@.len(),
            rank_then(t, s@, b as int, k as int) == rank_then(t, s@, b as int, b + 4),
        decreases len - k,
    {
        if rank_end_exec(s, b, k) {
            match tail_exec(t, s, k) {
                Some(v) => {
                    return Some(v);
                },
                None => {},
            }
        }
        if k == len {
            assert(rank_then(t, s@, b as int, k as int) == rank_then(t, s@, b as int, k + 1));
            assert(rank_then(t, s@, b as int, k + 1) == tail(t, s@, b as int));
            return tail_exec(t, s, b);
        }
        k = k + 1;
    }
}

/// Leftmost match of `(?:\[.+?\] )?` and a tail, searching start positions
/// from `i` on (an unanchored regex search).
pub open spec fn search(t: Tail, s: Seq<char>, i: int) -> Option<Seq<Span>>
    decreases s.len() + 1 - i,
{
    if i > s.len() || i < 0 {
        None
    } else if ranked(t, s, i) is Some {
        ranked(t, s, i)
    } else {
        search(t, s, i + 1)
    }
}

/// Searches for the leftmost match of `(?:\[.+?\] )?` and a tail.
pub fn search_exec(t: Tail, s: &Vec<char>) -> (r: Option<Vec<(usize, usize)>>)
    ensures
        match r {
            Some(v) => search(t, s@, 0) == Some(spans_of(v@)),
            None => search(t, s@, 0) is None,
        },
{
    let len = s.len();
    let mut i: usize = 0;
    loop
        invariant
            i <= len == s@.len(),
            search(t, s@, i as int) == search(t, s@, 0),
        decreases len - i,
    {
        match ranked_exec(t, s, i) {
            Some(v) => {
                return Some(v);
            },
            None => {},
        }
        if i == len {
            assert(search(t, s@, i + 1) is None);
            return None;
        }
        i = i + 1;
    }
}

/// Start of the last `'!` in `s[p+1..=j]` with no newline before it since `p`,
/// or -1: where the greedy `(.+)` of `'(.+)'!` ends.
pub open spec fn last_quote_bang(s: Seq<char>, p: int, j: int) -> int
    decreases j - p,
{
    if j < p + 1 {
        -1
    } else if lit_at(s, j, "'!"@) && no_newline(s, p, j) {
        j
    } else {
        last_quote_bang(s, p, j - 1)
    }
}

/// The span of the rank name in the leftmost match of
/// `I couldn't find a rank by the name of '(.+)'!`, searching from `i`.
pub open spec fn unknown_rank(s: Seq<char>, i: int) -> Option<Span>
    decreases s.len() + 1 - i,
{
    let h = "I couldn't find a rank by the name of '"@;
    if i > s.len() || i < 0 {
        None
    } else if lit_at(s, i, h) && last_quote_bang(s, i + h.len(), s.len() - 2) >= 0 {
        Some((i + h.len(), last_quote_bang(s, i + h.len(), s.len() - 2)))
    } else {
        unknown_rank(s, i + 1)
    }
}


fn last_quote_bang_exec(s: &Vec<char>, p: usize, j: usize) -> (r: Option<usize>)
    requires
        j + 2 <= s@.len(),
        p <= s@.len(),
    ensures
        match r {
            Some(x) => x as int == last_quote_bang(s@, p as int, j as int) && p < x <= j,
            None => last_quote_bang(s@, p as int, j as int) == -1,
        },
{
    let mut i = j;
    loop
        invariant
            i <= j,
            j + 2 <= s@.len(),
            p <= s@.len(),
            last_quote_bang(s@, p as int, i as int) == last_quote_bang(s@, p as int, j as int),
        decreases i,
    {
        if p == usize::MAX || i < p + 1 {
            return None;
        }
        if lit_at_exec(s, i, "'!") && no_newline_exec(s, p, i) {
            return Some(i);
        }
        i = i - 1;
    }
}

/// Finds the rank name of `I couldn't find a rank by the name of '(.+)'!`.
pub fn unknown_rank_exec(s: &Vec<char>) -> (r: Option<(usize, usize)>)
    ensures
        match r {
            Some(x) => unknown_rank(s@, 0) == Some((x.0 as int, x.1 as int)) && x.0 <= x.1
                <= s@.len(),
            None => unknown_rank(s@, 0) is None,
        },
{
    let h = "I couldn't find a rank by the name of '";
    let hl = h.unicode_len();
    let len = s.len();
    if len < 2 {
        let mut i: usize = 0;
        loop
            invariant
                i <= len == s@.len(),
                len < 2,
                h@ == "I couldn't find a rank by the name of '"@,
                hl == h@.len(),
                unknown_rank(s@, i as int) == unknown_rank(s@, 0),
            decreases len - i,
        {
            assert(last_quote_bang(s@, i + hl, s@.len() - 2) == -1);
            if i == len {
                assert(unknown_rank(s@, i + 1) is None);
                return None;
            }
            i = i + 1;
        }
    }
    let mut i: usize = 0;
    loop
        invariant
            i <= len == s@.len(),
            len >= 2,
            h@ == "I couldn't find a rank by the name of '"@,
            hl == h@.len(),
            unknown_rank(s@, i as int) == unknown_rank(s@, 0),
        decreases len - i,
    {
        if lit_at_exec(s, i, h) {
            match last_quote_bang_exec(s, i + hl, len - 2) {
                Some(j) => {
                    return Some((i + hl, j));
                },
                None => {},
            }
        }
        if i == len {
            assert(unknown_rank(s@, i + 1) is None);
            return None;
        }
        i = i + 1;
    }
}

} // verus!
