//! Parser for weighted preference headers such as `Accept-Encoding`.
//!
//! A header is a comma-separated list of items. An item is a token, with
//! optional space around it, and then optionally `;` and parameters separated
//! by `;`, each `key=value`. Only the parameter `q` is read: it gives the
//! token's weight.
use vstd::prelude::*;
use crate::priority_map::PriorityMap;
use crate::quality::{weight_quality, Weight, FULL_BITS};
use crate::text::{
    chars_of,
    find_char,
    find_from,
    is_space,
    is_token_char,
    lemma_find_from_bounds,
    skip_space,
    skip_spaces,
    skip_token,
    skip_token_chars,
    sub_chars,
    substring,
    trim,
    trim_bounds,
};

verus! {

/// Where the token of an item starts: after its leading space.
pub open spec fn token_start(s: Seq<char>) -> int {
    skip_space(s, 0)
}

/// Where the token of an item ends.
pub open spec fn token_end(s: Seq<char>) -> int {
    skip_token(s, token_start(s))
}

/// Where what follows the token and its trailing space starts.
pub open spec fn tail_start(s: Seq<char>) -> int {
    skip_space(s, token_end(s))
}

/// Whether `s` has the shape of a header item, `^\s*([A-Za-z0-9/*-]+)\s*(;.*)?$`:
/// a token between optional spaces, then nothing, or `;` and any characters but
/// a newline.
pub open spec fn is_header_item(s: Seq<char>) -> bool {
    let c = tail_start(s);
    &&& token_start(s) < token_end(s)
    &&& c == s.len() || (s[c] == ';' && forall|i: int| c < i < s.len() ==> s[i] != '\n')
}

/// The value of a parameter whose name is `q`. The parameter is trimmed and
/// split at its first `=`; its name is what stands before, trimmed; its value
/// what stands after, trimmed, or nothing where it has no `=`.
pub open spec fn q_value(param: Seq<char>) -> Option<Seq<char>> {
    let p = trim(param);
    let e = find_from(p, 0, '=');
    if trim(p.subrange(0, e)) == seq!['q'] {
        Some(
            if e < p.len() {
                trim(p.subrange(e + 1, p.len() as int))
            } else {
                Seq::empty()
            },
        )
    } else {
        None
    }
}

/// The value of the first `q` parameter among those that start at `p` and are
/// separated by `;`.
pub open spec fn first_q_value(s: Seq<char>, p: int) -> Option<Seq<char>>
    decreases s.len() - p,
    via first_q_value_decreases
{
    let k = find_from(s, p, ';');
    match q_value(s.subrange(p, k)) {
        Some(v) => Some(v),
        None => if k < s.len() {
            first_q_value(s, k + 1)
        } else {
            None
        },
    }
}

#[via_fn]
proof fn first_q_value_decreases(s: Seq<char>, p: int) {
    lemma_find_from_bounds(s, p, ';');
}

/// The weight that an item states: the value of its first `q` parameter, if it has one.
pub open spec fn item_weight(s: Seq<char>) -> Option<Seq<char>> {
    if tail_start(s) >= s.len() {
        None
    } else {
        first_q_value(s, tail_start(s) + 1)
    }
}

/// An item's token and stated weight, if it is a header item.
pub open spec fn header_item(s: Seq<char>) -> Option<(Seq<char>, Option<Seq<char>>)> {
    if is_header_item(s) {
        Some((s.subrange(token_start(s), token_end(s)), item_weight(s)))
    } else {
        None
    }
}

/// `acc` with the items that start at `p` and are separated by `,` added in
/// order; an item that is not a header item adds nothing, and a token that
/// comes again takes its later weight.
pub open spec fn items_map(s: Seq<char>, p: int, acc: Map<Seq<char>, Option<Seq<char>>>) -> Map<
    Seq<char>,
    Option<Seq<char>>,
>
    decreases s.len() - p,
    via items_map_decreases
{
    let k = find_from(s, p, ',');
    let next = match header_item(s.subrange(p, k)) {
        Some((t, w)) => acc.insert(t, w),
        None => acc,
    };
    if k < s.len() {
        items_map(s, k + 1, next)
    } else {
        next
    }
}

#[via_fn]
proof fn items_map_decreases(s: Seq<char>, p: int, acc: Map<Seq<char>, Option<Seq<char>>>) {
    lemma_find_from_bounds(s, p, ',');
}

/// The map from each token of a header to the weight its last item states.
pub open spec fn header_map(h: Seq<char>) -> Map<Seq<char>, Option<Seq<char>>> {
    items_map(trim(h), 0, Map::empty())
}

/// The bounds of the token and where the tail starts, if `s` is a header item.
fn item_shape(s: &Vec<char>) -> (r: Option<(usize, usize, usize)>)
    ensures
        match r {
            Some((a, b, c)) => {
                &&& is_header_item(s@)
                &&& a == token_start(s@) && b == token_end(s@) && c == tail_start(s@)
                &&& a < b <= c <= s@.len()
            },
            None => !is_header_item(s@),
        },
{
    let a = skip_spaces(s, 0);
    let b = skip_token_chars(s, a);
    let c = skip_spaces(s, b);
    if a == b {
        return None;
    }
    if c == s.len() {
        return Some((a, b, c));
    }
    if s[c] != ';' {
        return None;
    }
    let mut i = c + 1;
    while i < s.len()
        invariant
            c < i <= s@.len(),
            a == token_start(s@) && b == token_end(s@) && c == tail_start(s@),
            a < b <= c,
            s@[c as int] == ';',
            forall|j: int| c < j < i ==> s@[j] != '\n',
        decreases s@.len() - i,
    {
        if s[i] == '\n' {
            assert(!is_header_item(s@)) by {
                assert(c < i < s@.len() && s@[i as int] == '\n');
            }
            return None;
        }
        i += 1;
    }
    Some((a, b, c))
}

/// Whether `item` has the shape of a header item.
pub fn is_valid_header_item(item: &str) -> (r: bool)
    ensures
        r == is_header_item(item@),
{
    let s = chars_of(item);
    item_shape(&s).is_some()
}

/// The value of the parameter `s[p..k]` of `item`, if its name is `q`.
fn q_param(item: &str, s: &Vec<char>, p: usize, k: usize) -> (r: Option<String>)
    requires
        s@ == item@,
        p <= k <= s@.len(),
    ensures
        match r {
            Some(v) => q_value(s@.subrange(p as int, k as int)) == Some(v@),
            None => q_value(s@.subrange(p as int, k as int)) is None,
        },
{
    let param = sub_chars(s, p, k);
    let (a, b) = trim_bounds(&param);
    let t = sub_chars(&param, a, b);
    let e = find_char(&t, 0, '=');
    let name = sub_chars(&t, 0, e);
    let (na, nb) = trim_bounds(&name);
    let is_q = nb - na == 1 && name[na] == 'q';
    assert(is_q == (trim(name@) == seq!['q'])) by {
        assert(trim(name@) == name@.subrange(na as int, nb as int));
        if is_q {
            assert(trim(name@) =~= seq!['q']);
        } else if nb - na == 1 {
            assert(trim(name@)[0] == name@[na as int]);
            assert(seq!['q'][0] == 'q');
        } else {
            assert(seq!['q'].len() == 1);
        }
    }
    if !is_q {
        return None;
    }
    if e < t.len() {
        let rest = sub_chars(&t, e + 1, t.len());
        let (ra, rb) = trim_bounds(&rest);
        let from = p + a + e + 1 + ra;
        let to = p + a + e + 1 + rb;
        let v = substring(item, from, to);
        assert(v@ =~= trim(rest@));
        Some(v)
    } else {
        Some(String::new())
    }
}

/// The value of the first `q` parameter among those of `item` that start at
/// `p` and are separated by `;`.
fn first_q(item: &str, s: &Vec<char>, p: usize) -> (r: Option<String>)
    requires
        s@ == item@,
        p <= s@.len(),
    ensures
        match r {
            Some(v) => first_q_value(s@, p as int) == Some(v@),
            None => first_q_value(s@, p as int) is None,
        },
{
    let mut i = p;
    loop
        invariant
            s@ == item@,
            i <= s@.len(),
            first_q_value(s@, i as int) == first_q_value(s@, p as int),
        decreases s@.len() - i,
    {
        let k = find_char(s, i, ';');
        match q_param(item, s, i, k) {
            Some(v) => {
                return Some(v);
            },
            None => {
                if k < s.len() {
                    i = k + 1;
                } else {
                    return None;
                }
            },
        }
    }
}

/// The token of a header item and the weight it states; nothing where `item`
/// is not a header item.
pub fn parse_header_item(item: &str) -> (r: Option<(String, Weight)>)
    ensures
        match r {
            Some((t, w)) => header_item(item@) == Some((t@, w@)),
            None => header_item(item@) is None,
        },
{
    let s = chars_of(item);
    match item_shape(&s) {
        None => None,
        Some((a, b, c)) => {
            let token = substring(item, a, b);
            let weight = if c == s.len() {
                Weight::Unstated
            } else {
                match first_q(item, &s, c + 1) {
                    Some(v) => Weight::Stated(v),
                    None => Weight::Unstated,
                }
            };
            Some((token, weight))
        },
    }
}

/// The map from each token of `header` to the weight that its last item
/// states. The header is trimmed and split at each `,`; an item that is not a
/// header item is left out.
pub fn parse_header(header: &str) -> (r: PriorityMap<Weight>)
    ensures
        r@ == header_map(header@),
{
    let hs = chars_of(header);
    let (a, b) = trim_bounds(&hs);
    let t = header.substring_char(a, b);
    let ts = chars_of(t);
    let mut m: PriorityMap<Weight> = PriorityMap::new();
    let mut p: usize = 0;
    loop
        invariant
            ts@ == t@,
            t@ == trim(header@),
            p <= ts@.len(),
            items_map(ts@, p as int, m@) == header_map(header@),
        decreases ts@.len() - p,
    {
        let k = find_char(&ts, p, ',');
        let item = t.substring_char(p, k);
        match parse_header_item(item) {
            Some((token, weight)) => {
                m.insert(token, weight);
            },
            None => {},
        }
        if k < ts.len() {
            p = k + 1;
        } else {
            return m;
        }
    }
}

} // verus!

verus! {

proof fn lemma_skip_token_all(s: Seq<char>, p: int)
    requires
        0 <= p <= s.len(),
        forall|i: int| p <= i < s.len() ==> is_token_char(#[trigger] s[i]),
    ensures
        skip_token(s, p) == s.len(),
    decreases s.len() - p,
{
    if p < s.len() {
        lemma_skip_token_all(s, p + 1);
    }
}

/// An item that is a bare token, with nothing around it, is a header item
/// that states no weight: its quality is the full 1.0.
pub proof fn lemma_bare_token(s: Seq<char>)
    requires
        s.len() > 0,
        forall|i: int| 0 <= i < s.len() ==> is_token_char(#[trigger] s[i]),
    ensures
        header_item(s) == Some((s, None::<Seq<char>>)),
        forall|number: Option<u64>| weight_quality(None, number) == FULL_BITS,
{
    assert(!is_space(s[0]) && is_token_char(s[0]));
    assert(token_start(s) == 0);
    lemma_skip_token_all(s, 0);
    assert(s.subrange(0, s.len() as int) =~= s);
}

/// Parsing depends on the header's text alone: two headers with the same text
/// give the same map, so parsing one header twice gives equal maps.
pub proof fn lemma_parse_header_repeatable(h1: Seq<char>, h2: Seq<char>)
    requires
        h1 == h2,
    ensures
        header_map(h1) == header_map(h2),
{
}

} // verus!
