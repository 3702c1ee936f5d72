//! Autocomplete of guild member names in slash commands.

use fuzzy_matcher::FuzzyMatcher;
use sorted_vec::SortedSet;
use vstd::prelude::*;

verus! {

// ---------------------------------------------------------------------------
// Outside items
// ---------------------------------------------------------------------------

#[verifier::external_type_specification]
#[verifier::external_body]
#[verifier::reject_recursive_types(T)]
pub struct ExSortedSet<T: Ord>(SortedSet<T>);

/// The keys by which matches are ranked: minus the score, then the place of
/// the member in the list scored.
pub type Key = (i64, usize);

/// The order of keys, as std orders tuples: by the first field, then by the
/// second.
pub open spec fn key_lt(a: Key, b: Key) -> bool {
    a.0 < b.0 || (a.0 == b.0 && a.1 < b.1)
}

/// The items of a sorted set of keys, in the set's order.
pub uninterp spec fn sorted_items(s: SortedSet<(i64, usize)>) -> Seq<(i64, usize)>;

/// Each item is smaller than the next.
pub open spec fn strictly_sorted(s: Seq<Key>) -> bool {
    forall|i: int, j: int| 0 <= i < j < s.len() ==> key_lt(#[trigger] s[i], #[trigger] s[j])
}

/// Calls `SortedSet::with_capacity`, which makes an empty set.
#[verifier::external_body]
fn sorted_set_with_capacity(capacity: usize) -> (s: SortedSet<(i64, usize)>)
    ensures
        sorted_items(s) == Seq::<Key>::empty(),
{
    SortedSet::with_capacity(capacity)
}

/// Calls `SortedSet::push`.  Claimed, from the crate's source: the item goes
/// to its sorted place, and an equal item already there is replaced by it, so
/// a set of keys keeps each value once and stays sorted in tuple order.
#[verifier::external_body]
fn sorted_set_push(s: &mut SortedSet<(i64, usize)>, x: (i64, usize))
    ensures
        strictly_sorted(sorted_items(*old(s))) ==> strictly_sorted(sorted_items(*final(s))),
        sorted_items(*final(s)).to_set() == sorted_items(*old(s)).to_set().insert(x),
{
    s.push(x);
}

/// The items of a sorted set, in its order (the set's `Deref` to its vector).
#[verifier::external_body]
fn sorted_set_items(s: &SortedSet<(i64, usize)>) -> (v: Vec<(i64, usize)>)
    ensures
        v@ == sorted_items(*s),
{
    s.to_vec()
}

/// The score `SkimMatcherV2::default().ignore_case()` gives a choice for a
/// pattern, or `None` when the pattern does not match.
pub uninterp spec fn skim_score(choice: Seq<char>, pattern: Seq<char>) -> Option<i64>;

/// Calls `FuzzyMatcher::fuzzy_match` of `SkimMatcherV2::default().ignore_case()`.
/// Claimed: the result is `skim_score(choice, pattern)`, and an empty pattern
/// scores 0 (the first test of `SkimMatcherV2::fuzzy`).
#[verifier::external_body]
fn fuzzy_score(choice: &str, pattern: &str) -> (r: Option<i64>)
    ensures
        r == skim_score(choice@, pattern@),
        pattern@.len() == 0 ==> r == Some(0i64),
{
    fuzzy_matcher::skim::SkimMatcherV2::default().ignore_case().fuzzy_match(choice, pattern)
}

// ---------------------------------------------------------------------------
// Known members
// ---------------------------------------------------------------------------

/// The usernames of the guild members seen so far.
#[derive(Debug)]
pub struct Usernames {
    names: Vec<String>,
}

/// The texts of a list of names.
pub open spec fn texts(v: Seq<String>) -> Seq<Seq<char>> {
    v.map_values(|s: String| s@)
}

impl View for Usernames {
    type V = Set<Seq<char>>;

    closed spec fn view(&self) -> Set<Seq<char>> {
        texts(self.names@).to_set()
    }
}

impl Usernames {
    #[verifier::type_invariant]
    spec fn unique(self) -> bool {
        texts(self.names@).no_duplicates()
    }

    /// No usernames.
    pub fn new() -> (u: Usernames)
        ensures
            u@ == Set::<Seq<char>>::empty(),
    {
        let u = Usernames { names: Vec::new() };
        assert(texts(u.names@) =~= Seq::<Seq<char>>::empty());
        assert(u@ =~= Set::<Seq<char>>::empty());
        u
    }

    /// Where `name` is in the list, if it is.
    fn position(&self, name: &str) -> (r: Option<usize>)
        ensures
            match r {
                Some(i) => i < self.names@.len() && self.names@[i as int]@ == name@,
                None => !self@.contains(name@),
            },
    {
        let mut i: usize = 0;
        while i < self.names.len()
            invariant
                i <= self.names@.len(),
                forall|k: int| 0 <= k < i ==> self.names@[k]@ != name@,
            decreases self.names@.len() - i,
        {
            if crate::text::str_equal(self.names[i].as_str(), name) {
                return Some(i);
            }
            i = i + 1;
        }
        proof {
            if self@.contains(name@) {
                let k = texts(self.names@).index_of(name@);
                assert(texts(self.names@)[k] == name@);
            }
        }
        None
    }

    /// The usernames, as a list.
    pub fn to_vec(&self) -> (v: Vec<String>)
        ensures
            texts(v@).to_set() == self@,
            texts(v@).no_duplicates(),
    {
        proof {
            use_type_invariant(self);
        }
        let mut v: Vec<String> = Vec::new();
        let mut i: usize = 0;
        while i < self.names.len()
            invariant
                i <= self.names@.len(),
                texts(self.names@).no_duplicates(),
                v@.len() == i,
                forall|k: int| 0 <= k < i ==> (#[trigger] v@[k])@ == self.names@[k]@,
            decreases self.names@.len() - i,
        {
            let c = self.names[i].clone();
            v.push(c);
            i = i + 1;
        }
        proof {
            assert(texts(v@) =~= texts(self.names@));
        }
        v
    }

    /// Whether `name` is known.
    pub fn contains(&self, name: &str) -> (b: bool)
        ensures
            b == self@.contains(name@),
    {
        match self.position(name) {
            Some(i) => {
                assert(texts(self.names@)[i as int] == name@);
                true
            },
            None => false,
        }
    }
}

/// The known names after `name` is added, unless it is the bot's own.
pub open spec fn added(names: Set<Seq<char>>, name: Seq<char>, bot: Seq<char>) -> Set<Seq<char>> {
    if name == bot {
        names
    } else {
        names.insert(name)
    }
}

/// Adds a username, unless it is the bot's own.
pub fn add_username(names: &mut Usernames, username: &str, bot: &str)
    ensures
        final(names)@ == added(old(names)@, username@, bot@),
{
    if crate::text::str_equal(username, bot) {
        return;
    }
    proof {
        use_type_invariant(&*names);
    }
    if names.contains(username) {
        assert(old(names)@.insert(username@) =~= old(names)@);
        return;
    }
    let ghost before = texts(names.names@);
    let mut taken = Usernames::new();
    std::mem::swap(&mut taken, names);
    let mut v = taken.names;
    let ghost full = v@;
    let added_name = crate::text::str_to_string(username);
    v.push(added_name);
    proof {
        assert(texts(v@) =~= before.push(username@)) by {
            assert(v@ == full.push(added_name));
        }
        assert(texts(v@).no_duplicates()) by {
            assert forall|a: int, b: int| 0 <= a < b < texts(v@).len() implies texts(v@)[a] != texts(v@)[b] by {
                if b == texts(v@).len() - 1 {
                    assert(before.contains(texts(v@)[a]) ==> old(names)@.contains(texts(v@)[a]));
                    assert(texts(v@)[a] == before[a]);
                }
            }
        }
        before.lemma_push_to_set_commute(username@);
    }
    *names = Usernames { names: v };
}

/// Forgets a username.
pub fn remove_username(names: &mut Usernames, username: &str)
    ensures
        final(names)@ == old(names)@.remove(username@),
{
    proof {
        use_type_invariant(&*names);
    }
    match names.position(username) {
        None => {
            assert(old(names)@.remove(username@) =~= old(names)@);
        },
        Some(i) => {
            let ghost before = texts(names.names@);
            assert(before[i as int] == username@);
            let mut taken = Usernames::new();
            std::mem::swap(&mut taken, names);
            let mut v = taken.names;
            let ghost full = v@;
            v.remove(i);
            proof {
                assert(texts(v@) =~= before.remove(i as int)) by {
                    assert(v@ == full.remove(i as int));
                }
                lemma_remove_to_set(before, i as int);
            }
            *names = Usernames { names: v };
        },
    }
}

/// Removing the item at `i` of a list without duplicates removes exactly
/// that item from its set.
proof fn lemma_remove_to_set(s: Seq<Seq<char>>, i: int)
    requires
        s.no_duplicates(),
        0 <= i < s.len(),
    ensures
        s.remove(i).to_set() == s.to_set().remove(s[i]),
        s.remove(i).no_duplicates(),
{
    let after = s.remove(i);
    s.remove_ensures(i);
    assert forall|x: Seq<char>| after.contains(x) <==> (s.contains(x) && x != s[i]) by {
        if after.contains(x) {
            let k = choose|k: int| 0 <= k < after.len() && after[k] == x;
            if k < i {
                assert(s[k] == x);
            } else {
                assert(s[k + 1] == x);
            }
        }
        if s.contains(x) && x != s[i] {
            let k = choose|k: int| 0 <= k < s.len() && s[k] == x;
            if k < i {
                assert(after[k] == x);
            } else {
                assert(after[k - 1] == x);
            }
        }
    }
    assert(after.to_set() =~= s.to_set().remove(s[i]));
    assert forall|a: int, b: int| 0 <= a < b < after.len() implies after[a] != after[b] by {
        let a2 = if a < i { a } else { a + 1 };
        let b2 = if b < i { b } else { b + 1 };
        assert(after[a] == s[a2]);
        assert(after[b] == s[b2]);
    }
}

// ---------------------------------------------------------------------------
// Matching
// ---------------------------------------------------------------------------

/// The positive score of a name for an input, if it has one.
pub open spec fn positive_score(name: Seq<char>, input: Seq<char>) -> Option<i64> {
    match skim_score(name, input) {
        Some(s) => if s > 0 {
            Some(s)
        } else {
            None
        },
        None => None,
    }
}

/// `r` lists, best first, every known name that has a positive score on
/// `input`, each once.
pub open spec fn all_matches(r: Seq<Seq<char>>, names: Set<Seq<char>>, input: Seq<char>) -> bool {
    &&& r.no_duplicates()
    &&& forall|m: Seq<char>|
        #![trigger r.contains(m)]
        #![trigger names.contains(m)]
        r.contains(m) <==> (names.contains(m) && positive_score(m, input) is Some)
    &&& forall|i: int, j: int|
        0 <= i < j < r.len() ==> positive_score(#[trigger] r[i], input)->0 >= positive_score(
            #[trigger] r[j],
            input,
        )->0
}

/// The key of each member of `members` with a positive score: minus the
/// score, and the member's place.
pub open spec fn scored_key(members: Seq<Seq<char>>, input: Seq<char>, x: Key) -> bool {
    &&& x.1 < members.len()
    &&& positive_score(members[x.1 as int], input) matches Some(s) && x.0 == -s
}

/// Scores every member: the keys are those of the members with a positive
/// score.
fn score_members(members: &Vec<String>, input: &str) -> (r: SortedSet<(i64, usize)>)
    ensures
        strictly_sorted(sorted_items(r)),
        forall|x: Key|
            #![trigger sorted_items(r).contains(x)]
            sorted_items(r).contains(x) <==> scored_key(texts(members@), input@, x),
        input@.len() == 0 ==> sorted_items(r).len() == 0,
{
    let mut matches = sorted_set_with_capacity(members.len());
    let mut i: usize = 0;
    while i < members.len()
        invariant
            i <= members@.len(),
            strictly_sorted(sorted_items(matches)),
            forall|x: Key|
                #![trigger sorted_items(matches).contains(x)]
                sorted_items(matches).contains(x) <==> (x.1 < i && scored_key(
                    texts(members@),
                    input@,
                    x,
                )),
            input@.len() == 0 ==> sorted_items(matches).len() == 0,
        decreases members@.len() - i,
    {
        let member = &members[i];
        proof {
            assert(texts(members@)[i as int] == member@);
        }
        let ghost before = sorted_items(matches);
        if let Some(score) = fuzzy_score(member.as_str(), input) {
            if score > 0 {
                let key: (i64, usize) = (-score, i);
                sorted_set_push(&mut matches, key);
                proof {
                    assert(positive_score(member@, input@) == Some(score));
                    assert(scored_key(texts(members@), input@, key));
                    assert forall|x: Key| #[trigger] sorted_items(matches).contains(x) <==> (x.1 < i
                        + 1 && scored_key(texts(members@), input@, x)) by {
                        assert(sorted_items(matches).to_set().contains(x) == (before.to_set().contains(
                            x,
                        ) || x == key));
                        if x.1 == i && scored_key(texts(members@), input@, x) {
                            assert(x == key);
                        }
                    }
                }
            }
        }
        i = i + 1;
    }
    matches
}

/// Returns the known members that match the input, all of them, best match
/// first.  An empty input matches nobody.
pub fn get_matches(names: &Usernames, input: &str) -> (r: Vec<String>)
    ensures
        all_matches(texts(r@), names@, input@),
        input@.len() == 0 ==> r@.len() == 0,
{
    let members = names.to_vec();
    let count = members.len();
    let matches = score_members(&members, input);
    let keys = sorted_set_items(&matches);
    let ghost ms = texts(members@);
    let mut r: Vec<String> = Vec::new();
    let mut j: usize = 0;
    while j < keys.len()
        invariant
            j <= keys@.len(),
            keys@ == sorted_items(matches),
            ms == texts(members@),
            count == members@.len(),
            forall|x: Key|
                #![trigger sorted_items(matches).contains(x)]
                sorted_items(matches).contains(x) <==> scored_key(ms, input@, x),
            r@.len() == j,
            forall|k: int| 0 <= k < j ==> (#[trigger] r@[k])@ == ms[keys@[k].1 as int],
        decreases keys@.len() - j,
    {
        let key = keys[j];
        proof {
            assert(sorted_items(matches).contains(key));
        }
        r.push(members[key.1].clone());
        j = j + 1;
    }
    proof {
        assert(ms.len() == members@.len());
        lemma_all_matches(r@, keys@, ms, names@, input@);
    }
    r
}

/// The members picked by strictly sorted keys, which are exactly the keys of
/// the members with a positive score, are all the matches, best first.
proof fn lemma_all_matches(
    r: Seq<String>,
    keys: Seq<Key>,
    ms: Seq<Seq<char>>,
    names: Set<Seq<char>>,
    input: Seq<char>,
)
    requires
        strictly_sorted(keys),
        ms.no_duplicates(),
        ms.to_set() == names,
        ms.len() <= usize::MAX,
        forall|x: Key| #![trigger keys.contains(x)] keys.contains(x) <==> scored_key(ms, input, x),
        r.len() == keys.len(),
        forall|k: int| 0 <= k < r.len() ==> (#[trigger] r[k])@ == ms[keys[k].1 as int],
    ensures
        all_matches(texts(r), names, input),
{
    let t = texts(r);
    assert forall|k: int| 0 <= k < t.len() implies #[trigger] t[k] == ms[keys[k].1 as int]
        && scored_key(ms, input, keys[k]) by {
        assert(t[k] == r[k]@);
        assert(keys.contains(keys[k]));
    }
    assert forall|a: int, b: int| 0 <= a < b < t.len() implies t[a] != t[b] by {
        assert(t[a] == ms[keys[a].1 as int]);
        assert(t[b] == ms[keys[b].1 as int]);
        assert(key_lt(keys[a], keys[b]));
        assert(scored_key(ms, input, keys[a]));
        assert(scored_key(ms, input, keys[b]));
        if t[a] == t[b] {
            assert(ms[keys[a].1 as int] == ms[keys[b].1 as int]);
            assert(keys[a].1 == keys[b].1);
            assert(keys[a].0 == keys[b].0);
        }
    }
    assert forall|m: Seq<char>| t.contains(m) <==> (names.contains(m) && positive_score(m, input) is Some) by {
        if t.contains(m) {
            let k = choose|k: int| 0 <= k < t.len() && t[k] == m;
            assert(t[k] == ms[keys[k].1 as int]);
            assert(scored_key(ms, input, keys[k]));
            assert(ms.contains(m));
            assert(ms.to_set().contains(m));
        }
        if names.contains(m) && positive_score(m, input) is Some {
            assert(ms.to_set().contains(m));
            let i = choose|i: int| 0 <= i < ms.len() && ms[i] == m;
            let s = positive_score(m, input)->0;
            let x: Key = ((-s) as i64, i as usize);
            assert(x.1 == i);
            assert(x.0 == -s);
            assert(scored_key(ms, input, x));
            assert(keys.contains(x));
            let k = choose|k: int| 0 <= k < keys.len() && keys[k] == x;
            assert(t[k] == ms[i]);
        }
    }
    assert forall|a: int, b: int| 0 <= a < b < t.len() implies positive_score(#[trigger] t[a], input)->0
        >= positive_score(#[trigger] t[b], input)->0 by {
        assert(t[a] == ms[keys[a].1 as int]);
        assert(t[b] == ms[keys[b].1 as int]);
        assert(key_lt(keys[a], keys[b]));
    }
}

/// Adding a name and then removing it forgets the name and leaves every
/// other known name as it was; the bot's own name is never known through
/// adding.
pub proof fn lemma_add_then_remove(names: Set<Seq<char>>, name: Seq<char>, bot: Seq<char>)
    ensures
        added(names, name, bot).remove(name) == names.remove(name),
        name != bot ==> added(names, name, bot).contains(name),
        added(names, bot, bot) == names,
{
    assert(added(names, name, bot).remove(name) =~= names.remove(name));
}

} // verus!
