//! Characters, scanning and trimming over `Seq<char>`, with executable
//! counterparts over `Vec<char>`.
use vstd::prelude::*;

verus! {

/// A character of Unicode's White_Space property: what `\s` stands for in a
/// Unicode-aware regular expression.
pub open spec fn is_space(c: char) -> bool {
    ('\t' <= c && c <= '\r') || c == ' ' || c == '\u{85}' || c == '\u{a0}' || c == '\u{1680}'
        || ('\u{2000}' <= c && c <= '\u{200a}') || c == '\u{2028}' || c == '\u{2029}' || c
        == '\u{202f}' || c == '\u{205f}' || c == '\u{3000}'
}

/// A character that trimming removes: space, tab or newline.
pub open spec fn is_blank(c: char) -> bool {
    c == ' ' || c == '\t' || c == '\n'
}

/// A character that may stand in a token: an ASCII letter or digit, `/`, `*` or `-`.
pub open spec fn is_token_char(c: char) -> bool {
    ('A' <= c && c <= 'Z') || ('a' <= c && c <= 'z') || ('0' <= c && c <= '9') || c == '/' || c
        == '*' || c == '-'
}

/// The first index at or after `p` that holds `c`, or the length of `s` if none does.
pub open spec fn find_from(s: Seq<char>, p: int, c: char) -> int
    decreases s.len() - p,
{
    if p >= s.len() {
        s.len() as int
    } else if s[p] == c {
        p
    } else {
        find_from(s, p + 1, c)
    }
}

/// The first index at or after `p` that holds no space.
pub open spec fn skip_space(s: Seq<char>, p: int) -> int
    decreases s.len() - p,
{
    if 0 <= p < s.len() && is_space(s[p]) {
        skip_space(s, p + 1)
    } else {
        p
    }
}

/// The first index at or after `p` that holds no token character.
pub open spec fn skip_token(s: Seq<char>, p: int) -> int
    decreases s.len() - p,
{
    if 0 <= p < s.len() && is_token_char(s[p]) {
        skip_token(s, p + 1)
    } else {
        p
    }
}

/// The first index at or after `p` that holds no blank.
pub open spec fn skip_blank(s: Seq<char>, p: int) -> int
    decreases s.len() - p,
{
    if 0 <= p < s.len() && is_blank(s[p]) {
        skip_blank(s, p + 1)
    } else {
        p
    }
}

/// Going down from `j` but not below `lo`: the end of `s[lo..j]` without its trailing blanks.
pub open spec fn back_blank(s: Seq<char>, lo: int, j: int) -> int
    decreases j - lo,
{
    if lo < j && j <= s.len() && is_blank(s[j - 1]) {
        back_blank(s, lo, j - 1)
    } else {
        j
    }
}

/// `s` without its leading and trailing blanks.
pub open spec fn trim(s: Seq<char>) -> Seq<char> {
    let a = skip_blank(s, 0);
    s.subrange(a, back_blank(s, a, s.len() as int))
}

pub(crate) proof fn lemma_find_from_bounds(s: Seq<char>, p: int, c: char)
    ensures
        p <= s.len() ==> p <= find_from(s, p, c) <= s.len(),
        p > s.len() ==> find_from(s, p, c) == s.len(),
        find_from(s, p, c) < s.len() ==> s[find_from(s, p, c)] == c,
    decreases s.len() - p,
{
    if p < s.len() && s[p] != c {
        lemma_find_from_bounds(s, p + 1, c);
    }
}

/// The characters of `s`, one by one.
pub(crate) fn chars_of(s: &str) -> (r: Vec<char>)
    ensures
        r@ == s@,
{
    let n = s.unicode_len();
    let mut r: Vec<char> = Vec::new();
    let mut i: usize = 0;
    while i < n
        invariant
            n == s@.len(),
            i <= n,
            r@ == s@.subrange(0, i as int),
        decreases n - i,
    {
        r.push(s.get_char(i));
        i += 1;
    }
    assert(r@ =~= s@);
    r
}

/// The characters of `s` from `from` up to `to`.
pub(crate) fn sub_chars(s: &Vec<char>, from: usize, to: usize) -> (r: Vec<char>)
    requires
        from <= to <= s@.len(),
    ensures
        r@ == s@.subrange(from as int, to as int),
{
    let mut r: Vec<char> = Vec::new();
    let mut i = from;
    while i < to
        invariant
            from <= i <= to <= s@.len(),
            r@ == s@.subrange(from as int, i as int),
        decreases to - i,
    {
        r.push(s[i]);
        i += 1;
    }
    r
}

/// The characters of `s` from `from` up to `to`, as a new string.
pub(crate) fn substring(s: &str, from: usize, to: usize) -> (r: String)
    requires
        from <= to <= s@.len(),
    ensures
        r@ == s@.subrange(from as int, to as int),
{
    String::from_str(s.substring_char(from, to))
}

pub(crate) fn space(c: char) -> (r: bool)
    ensures
        r == is_space(c),
{
    ('\t' <= c && c <= '\r') || c == ' ' || c == '\u{85}' || c == '\u{a0}' || c == '\u{1680}'
        || ('\u{2000}' <= c && c <= '\u{200a}') || c == '\u{2028}' || c == '\u{2029}' || c
        == '\u{202f}' || c == '\u{205f}' || c == '\u{3000}'
}

pub(crate) fn blank(c: char) -> (r: bool)
    ensures
        r == is_blank(c),
{
    c == ' ' || c == '\t' || c == '\n'
}

pub(crate) fn token_char(c: char) -> (r: bool)
    ensures
        r == is_token_char(c),
{
    ('A' <= c && c <= 'Z') || ('a' <= c && c <= 'z') || ('0' <= c && c <= '9') || c == '/' || c
        == '*' || c == '-'
}

/// The first index at or after `p` that holds `c`, or the length of `s`.
pub(crate) fn find_char(s: &Vec<char>, p: usize, c: char) -> (r: usize)
    requires
        p <= s@.len(),
    ensures
        r == find_from(s@, p as int, c),
        p <= r <= s@.len(),
{
    let mut i = p;
    while i < s.len() && s[i] != c
        invariant
            p <= i <= s@.len(),
            find_from(s@, i as int, c) == find_from(s@, p as int, c),
        decreases s@.len() - i,
    {
        i += 1;
    }
    i
}

pub(crate) fn skip_spaces(s: &Vec<char>, p: usize) -> (r: usize)
    requires
        p <= s@.len(),
    ensures
        r == skip_space(s@, p as int),
        p <= r <= s@.len(),
{
    let mut i = p;
    while i < s.len() && space(s[i])
        invariant
            p <= i <= s@.len(),
            skip_space(s@, i as int) == skip_space(s@, p as int),
        decreases s@.len() - i,
    {
        i += 1;
    }
    i
}

pub(crate) fn skip_token_chars(s: &Vec<char>, p: usize) -> (r: usize)
    requires
        p <= s@.len(),
    ensures
        r == skip_token(s@, p as int),
        p <= r <= s@.len(),
{
    let mut i = p;
    while i < s.len() && token_char(s[i])
        invariant
            p <= i <= s@.len(),
            skip_token(s@, i as int) == skip_token(s@, p as int),
        decreases s@.len() - i,
    {
        i += 1;
    }
    i
}

/// The bounds of `s` without its leading and trailing blanks.
pub(crate) fn trim_bounds(s: &Vec<char>) -> (r: (usize, usize))
    ensures
        r.0 <= r.1 <= s@.len(),
        s@.subrange(r.0 as int, r.1 as int) == trim(s@),
{
    let mut a: usize = 0;
    while a < s.len() && blank(s[a])
        invariant
            a <= s@.len(),
            skip_blank(s@, a as int) == skip_blank(s@, 0),
        decreases s@.len() - a,
    {
        a += 1;
    }
    let mut b: usize = s.len();
    while a < b && blank(s[b - 1])
        invariant
            a <= b <= s@.len(),
            back_blank(s@, a as int, b as int) == back_blank(s@, a as int, s@.len() as int),
        decreases b - a,
    {
        b -= 1;
    }
    (a, b)
}

} // verus!
