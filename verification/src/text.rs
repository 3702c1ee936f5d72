//! Character classes and string helpers shared by the whole crate.

use vstd::prelude::*;

verus! {

/// Membership in the Unicode `\w` class of the `regex` crate family
/// (Alphabetic, Join_Control, Decimal_Number, Mark, Connector_Punctuation).
pub uninterp spec fn word_char(c: char) -> bool;

/// Membership in the Unicode `White_Space` property: U+0009 to U+000D, the
/// space, U+0085, U+00A0, U+1680, U+2000 to U+200A, U+2028, U+2029, U+202F,
/// U+205F and U+3000.
pub open spec fn white_space(c: char) -> bool {
    let u = c as u32;
    ||| 0x9 <= u <= 0xD
    ||| u == 0x20
    ||| u == 0x85
    ||| u == 0xA0
    ||| u == 0x1680
    ||| 0x2000 <= u <= 0x200A
    ||| u == 0x2028
    ||| u == 0x2029
    ||| u == 0x202F
    ||| u == 0x205F
    ||| u == 0x3000
}

/// ASCII letters, digits and the underscore.
pub open spec fn ascii_word(c: char) -> bool {
    ('a' <= c && c <= 'z') || ('A' <= c && c <= 'Z') || ('0' <= c && c <= '9') || c == '_'
}

/// Calls `regex_syntax::is_word_character`, the `\w` test used by `regex`.
/// Claimed: the result is `word_char(c)`, and on ASCII characters it is exactly
/// `[A-Za-z0-9_]` (the fast path and the first ranges of the `PERL_WORD` table).
#[verifier::external_body]
pub(crate) fn is_word_char(c: char) -> (b: bool)
    ensures
        b == word_char(c),
        (c as u32) < 128 ==> (b <==> ascii_word(c)),
{
    regex_syntax::is_word_character(c)
}

/// Whether a character is white space, the test behind `\s` and `\S`
/// (the property `char::is_whitespace` documents).
pub fn is_white_space(c: char) -> (b: bool)
    ensures
        b == white_space(c),
        (c as u32) < 128 ==> (b <==> (c == ' ' || ('\t' <= c && c <= '\r'))),
{
    let u = c as u32;
    (0x9 <= u && u <= 0xD) || u == 0x20 || u == 0x85 || u == 0xA0 || u == 0x1680 || (0x2000 <= u
        && u <= 0x200A) || u == 0x2028 || u == 0x2029 || u == 0x202F || u == 0x205F || u == 0x3000
}

/// Whether a character is a `\w` word character; on ASCII characters it is
/// exactly `[A-Za-z0-9_]`.
pub fn word_character(c: char) -> (b: bool)
    ensures
        b == word_char(c),
        (c as u32) < 128 ==> (b <==> ascii_word(c)),
{
    is_word_char(c)
}

/// `String::push` appends one character.
pub assume_specification[ String::push ](s: &mut String, ch: char)
    ensures
        final(s)@ == old(s)@.push(ch),
;

/// The characters of a string slice.
pub fn chars_of(s: &str) -> (v: Vec<char>)
    ensures
        v@ == s@,
{
    let n = s.unicode_len();
    let mut v: Vec<char> = Vec::new();
    let mut i: usize = 0;
    while i < n
        invariant
            n == s@.len(),
            i <= n,
            v@ == s@.subrange(0, i as int),
        decreases n - i,
    {
        v.push(s.get_char(i));
        i = i + 1;
    }
    v
}

/// A string holding the characters `v[from..to]`.
pub fn string_of(v: &Vec<char>, from: usize, to: usize) -> (s: String)
    requires
        from <= to <= v@.len(),
    ensures
        s@ == v@.subrange(from as int, to as int),
{
    let mut s = String::new();
    let mut i = from;
    while i < to
        invariant
            from <= i <= to <= v@.len(),
            s@ == v@.subrange(from as int, i as int),
        decreases to - i,
    {
        s.push(v[i]);
        i = i + 1;
    }
    s
}

/// `s` followed by the string slice `t`.
pub fn concat(s: String, t: &str) -> (r: String)
    ensures
        r@ == s@ + t@,
{
    let mut r = s;
    r.append(t);
    r
}

/// The code point of a character after ASCII lower-casing.
pub open spec fn lower(c: char) -> u32 {
    if 'A' <= c && c <= 'Z' {
        ((c as u32) + 32) as u32
    } else {
        c as u32
    }
}

/// Equality up to ASCII case, as `str::eq_ignore_ascii_case` decides it.
pub open spec fn eq_ignore_case(a: Seq<char>, b: Seq<char>) -> bool {
    a.len() == b.len() && forall|i: int| 0 <= i < a.len() ==> lower(#[trigger] a[i]) == lower(b[i])
}

/// Comparing names up to ASCII case is an equivalence: every name matches
/// itself, matching goes both ways, and it chains.
pub proof fn lemma_eq_ignore_case_equivalence(a: Seq<char>, b: Seq<char>, c: Seq<char>)
    ensures
        eq_ignore_case(a, a),
        eq_ignore_case(a, b) ==> eq_ignore_case(b, a),
        eq_ignore_case(a, b) && eq_ignore_case(b, c) ==> eq_ignore_case(a, c),
{
    if eq_ignore_case(a, b) && eq_ignore_case(b, c) {
        assert forall|i: int| 0 <= i < a.len() implies lower(#[trigger] a[i]) == lower(c[i]) by {
            assert(lower(a[i]) == lower(b[i]));
            assert(lower(b[i]) == lower(c[i]));
        }
    }
    if eq_ignore_case(a, b) {
        assert forall|i: int| 0 <= i < b.len() implies lower(#[trigger] b[i]) == lower(a[i]) by {
            assert(lower(a[i]) == lower(b[i]));
        }
    }
}

fn lower_char(c: char) -> (r: u32)
    ensures
        r == lower(c),
{
    if 'A' <= c && c <= 'Z' {
        (c as u32) + 32
    } else {
        c as u32
    }
}

/// Compares two character sequences up to ASCII case.
pub fn eq_ignore_ascii_case(a: &Vec<char>, b: &Vec<char>) -> (r: bool)
    ensures
        r == eq_ignore_case(a@, b@),
{
    if a.len() != b.len() {
        return false;
    }
    let mut i: usize = 0;
    while i < a.len()
        invariant
            a@.len() == b@.len(),
            i <= a@.len(),
            forall|k: int| 0 <= k < i ==> lower(#[trigger] a@[k]) == lower(b@[k]),
        decreases a@.len() - i,
    {
        if lower_char(a[i]) != lower_char(b[i]) {
            return false;
        }
        i = i + 1;
    }
    true
}

/// Compares two string slices up to ASCII case.
pub fn str_eq_ignore_ascii_case(a: &str, b: &str) -> (r: bool)
    ensures
        r == eq_ignore_case(a@, b@),
{
    let av = chars_of(a);
    let bv = chars_of(b);
    eq_ignore_ascii_case(&av, &bv)
}

/// A new string holding the characters of `s`.
pub fn str_to_string(s: &str) -> (r: String)
    ensures
        r@ == s@,
{
    let mut r = String::new();
    r.append(s);
    r
}

/// Whether `v[from..to]` holds exactly the characters of `lit`.
pub fn eq_str(v: &Vec<char>, from: usize, to: usize, lit: &str) -> (b: bool)
    requires
        from <= to <= v@.len(),
    ensures
        b == (v@.subrange(from as int, to as int) == lit@),
{
    let n = lit.unicode_len();
    if to - from != n {
        return false;
    }
    let mut k: usize = 0;
    while k < n
        invariant
            n == lit@.len(),
            to - from == n,
            from <= to <= v@.len(),
            k <= n,
            forall|i: int| 0 <= i < k ==> v@[from + i] == #[trigger] lit@[i],
        decreases n - k,
    {
        if v[from + k] != lit.get_char(k) {
            assert(v@.subrange(from as int, to as int)[k as int] != lit@[k as int]);
            return false;
        }
        k = k + 1;
    }
    assert(v@.subrange(from as int, to as int) =~= lit@);
    true
}

/// Whether two string slices hold the same characters.
pub fn str_equal(a: &str, b: &str) -> (r: bool)
    ensures
        r == (a@ == b@),
{
    let v = chars_of(a);
    let n = v.len();
    proof {
        assert(v@.subrange(0, n as int) =~= v@);
    }
    eq_str(&v, 0, n, b)
}

/// First position at or after `i` that is not whitespace.
pub open spec fn first_solid(s: Seq<char>, i: int) -> int
    decreases s.len() - i,
{
    if 0 <= i < s.len() && white_space(s[i]) {
        first_solid(s, i + 1)
    } else {
        i
    }
}

/// End of `s[..j]` once trailing whitespace is dropped.
pub open spec fn last_solid(s: Seq<char>, j: int) -> int
    decreases j,
{
    if 0 < j <= s.len() && white_space(s[j - 1]) {
        last_solid(s, j - 1)
    } else {
        j
    }
}

/// `s` without leading and trailing whitespace, as `str::trim` gives it.
pub open spec fn trim(s: Seq<char>) -> Seq<char> {
    let a = first_solid(s, 0);
    if a >= s.len() {
        Seq::empty()
    } else {
        s.subrange(a, last_solid(s, s.len() as int))
    }
}

pub proof fn lemma_trim_bounds(s: Seq<char>)
    ensures
        first_solid(s, 0) < s.len() ==> 0 <= first_solid(s, 0) < last_solid(s, s.len() as int)
            <= s.len(),
{
    lemma_first_solid(s, 0);
    lemma_last_solid(s, s.len() as int);
    if first_solid(s, 0) < s.len() {
        if last_solid(s, s.len() as int) <= first_solid(s, 0) {
            let a = first_solid(s, 0);
            assert(!white_space(s[a]));
        }
    }
}

pub proof fn lemma_first_solid(s: Seq<char>, i: int)
    requires
        0 <= i <= s.len(),
    ensures
        i <= first_solid(s, i) <= s.len(),
        forall|k: int| i <= k < first_solid(s, i) ==> white_space(#[trigger] s[k]),
        first_solid(s, i) < s.len() ==> !white_space(s[first_solid(s, i)]),
    decreases s.len() - i,
{
    if i < s.len() && white_space(s[i]) {
        lemma_first_solid(s, i + 1);
    }
}

pub proof fn lemma_last_solid(s: Seq<char>, j: int)
    requires
        0 <= j <= s.len(),
    ensures
        0 <= last_solid(s, j) <= j,
        forall|k: int| last_solid(s, j) <= k < j ==> white_space(#[trigger] s[k]),
        last_solid(s, j) > 0 ==> !white_space(s[last_solid(s, j) - 1]),
    decreases j,
{
    if 0 < j && white_space(s[j - 1]) {
        lemma_last_solid(s, j - 1);
    }
}

/// The bounds of `trim(v)` inside `v`.
pub fn trim_bounds(v: &Vec<char>) -> (r: (usize, usize))
    ensures
        r.0 <= r.1 <= v@.len(),
        trim(v@) == v@.subrange(r.0 as int, r.1 as int),
{
    let n = v.len();
    let mut a: usize = 0;
    while a < n && is_white_space(v[a])
        invariant
            a <= n == v@.len(),
            first_solid(v@, a as int) == first_solid(v@, 0),
        decreases n - a,
    {
        a = a + 1;
    }
    if a >= n {
        return (n, n);
    }
    let mut b: usize = n;
    while b > 0 && is_white_space(v[b - 1])
        invariant
            b <= n == v@.len(),
            last_solid(v@, b as int) == last_solid(v@, n as int),
        decreases b,
    {
        b = b - 1;
    }
    proof {
        lemma_trim_bounds(v@);
    }
    (a, b)
}

} // verus!
