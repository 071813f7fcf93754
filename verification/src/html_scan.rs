//! The grammar of link attributes in HTML text: a name among `href`, `src`,
//! `action`, `data`, `poster`, `srcset` (case-insensitive), optional white
//! space, `=`, optional white space, and a value that is either quoted
//! (`"` or `'` on each side, at least one character, no quote inside) or
//! bare (at least one character, up to white space or `>`). At each
//! position the names are tried in that order, and a quoted value before a
//! bare one.
use vstd::prelude::*;
use crate::text::{is_ws, is_ws_char};

verus! {

/// A character of the text matches a lowercase ASCII letter of a keyword
/// case-insensitively, as Unicode simple case folding relates them (the
/// long s, U+017F, folds to `s`).
pub open spec fn folds_to(c: char, p: char) -> bool {
    c == p || (c as int) + 32 == (p as int) || (p == 's' && c == '\u{17f}')
}

/// `w`, a lowercase ASCII keyword, occurs case-insensitively at `i`.
pub open spec fn keyword_at(t: Seq<char>, i: int, w: Seq<char>) -> bool {
    &&& 0 <= i
    &&& i + w.len() <= t.len()
    &&& forall|j: int| #![trigger w[j]] 0 <= j < w.len() ==> folds_to(t[i + j], w[j])
}

/// The first position at or after `i` that is not white space.
pub open spec fn skip_ws(t: Seq<char>, i: int) -> int
    decreases t.len() - i,
{
    if 0 <= i < t.len() && is_ws(t[i]) {
        skip_ws(t, i + 1)
    } else {
        i
    }
}

pub open spec fn is_quote(c: char) -> bool {
    c == '"' || c == '\''
}

/// The first position at or after `i` holding a quote, or the end.
pub open spec fn quote_run_end(t: Seq<char>, i: int) -> int
    decreases t.len() - i,
{
    if 0 <= i < t.len() && !is_quote(t[i]) {
        quote_run_end(t, i + 1)
    } else {
        i
    }
}

/// The first position at or after `i` holding white space or `>`, or the end.
pub open spec fn bare_run_end(t: Seq<char>, i: int) -> int
    decreases t.len() - i,
{
    if 0 <= i < t.len() && !is_ws(t[i]) && t[i] != '>' {
        bare_run_end(t, i + 1)
    } else {
        i
    }
}

/// The value that begins at `v`: (start, end, end of the match).
pub open spec fn value_at(t: Seq<char>, v: int) -> Option<(int, int, int)> {
    let q = quote_run_end(t, v + 1);
    let b = bare_run_end(t, v);
    if 0 <= v < t.len() && is_quote(t[v]) && q > v + 1 && q < t.len() {
        Some((v + 1, q, q + 1))
    } else if b > v {
        Some((v, b, b))
    } else {
        None
    }
}

/// `= value` after an attribute name ending at `n`.
pub open spec fn after_name(t: Seq<char>, n: int) -> Option<(int, int, int)> {
    let e = skip_ws(t, n);
    if 0 <= e < t.len() && t[e] == '=' {
        value_at(t, skip_ws(t, e + 1))
    } else {
        None
    }
}

pub open spec fn attr_names() -> Seq<Seq<char>> {
    seq![
        seq!['h', 'r', 'e', 'f'],
        seq!['s', 'r', 'c'],
        seq!['a', 'c', 't', 'i', 'o', 'n'],
        seq!['d', 'a', 't', 'a'],
        seq!['p', 'o', 's', 't', 'e', 'r'],
        seq!['s', 'r', 'c', 's', 'e', 't'],
    ]
}

/// The match at `p` that uses the first of the names from the `k`-th on
/// that leads to one: (end of the name, value start, value end, match end).
pub open spec fn attr_match_from(t: Seq<char>, p: int, k: int) -> Option<(int, int, int, int)>
    decreases 6 - k,
{
    if k < 0 || k >= 6 {
        None
    } else {
        let w = attr_names()[k];
        if keyword_at(t, p, w) && after_name(t, p + w.len()) is Some {
            let v = after_name(t, p + w.len()).unwrap();
            Some((p + w.len(), v.0, v.1, v.2))
        } else {
            attr_match_from(t, p, k + 1)
        }
    }
}

/// The attribute match that begins at `p`, if any.
pub open spec fn attr_match_at(t: Seq<char>, p: int) -> Option<(int, int, int, int)> {
    attr_match_from(t, p, 0)
}

// ---- exec ----

pub fn folds_to_char(c: char, p: char) -> (r: bool)
    ensures
        r == folds_to(c, p),
{
    c == p || ((p as u32) >= 32 && (c as u32) == (p as u32) - 32) || (p == 's' && c == '\u{17f}')
}

pub fn keyword_at_exec(t: &Vec<char>, i: usize, w: &Vec<char>) -> (r: bool)
    ensures
        r == keyword_at(t@, i as int, w@),
{
    if i > t.len() || w.len() > t.len() - i {
        return false;
    }
    let mut j: usize = 0;
    while j < w.len()
        invariant
            i + w.len() <= t.len(),
            j <= w.len(),
            forall|k: int| #![trigger w@[k]] 0 <= k < j ==> folds_to(t@[i + k], w@[k]),
        decreases w.len() - j,
    {
        if !folds_to_char(t[i + j], w[j]) {
            assert(!folds_to(t@[i + j as int], w@[j as int]));
            return false;
        }
        j = j + 1;
    }
    true
}

pub fn skip_ws_exec(t: &Vec<char>, i: usize) -> (r: usize)
    requires
        i <= t.len(),
    ensures
        r as int == skip_ws(t@, i as int),
        i <= r <= t.len(),
{
    let mut k = i;
    while k < t.len() && is_ws_char(t[k])
        invariant
            i <= k <= t.len(),
            skip_ws(t@, i as int) == skip_ws(t@, k as int),
        decreases t.len() - k,
    {
        k = k + 1;
    }
    k
}

pub fn quote_run_end_exec(t: &Vec<char>, i: usize) -> (r: usize)
    requires
        i <= t.len(),
    ensures
        r as int == quote_run_end(t@, i as int),
        i <= r <= t.len(),
{
    let mut k = i;
    while k < t.len() && !(t[k] == '"' || t[k] == '\'')
        invariant
            i <= k <= t.len(),
            quote_run_end(t@, i as int) == quote_run_end(t@, k as int),
        decreases t.len() - k,
    {
        k = k + 1;
    }
    k
}

pub fn bare_run_end_exec(t: &Vec<char>, i: usize) -> (r: usize)
    requires
        i <= t.len(),
    ensures
        r as int == bare_run_end(t@, i as int),
        i <= r <= t.len(),
{
    let mut k = i;
    while k < t.len() && !is_ws_char(t[k]) && t[k] != '>'
        invariant
            i <= k <= t.len(),
            bare_run_end(t@, i as int) == bare_run_end(t@, k as int),
        decreases t.len() - k,
    {
        k = k + 1;
    }
    k
}

pub fn value_at_exec(t: &Vec<char>, v: usize) -> (r: Option<(usize, usize, usize)>)
    requires
        v <= t.len(),
    ensures
        match r {
            Some(x) => value_at(t@, v as int) == Some((x.0 as int, x.1 as int, x.2 as int))
                && v <= x.0 <= x.1 <= x.2 <= t.len() && x.2 > v,
            None => value_at(t@, v as int) is None,
        },
{
    if v < t.len() && (t[v] == '"' || t[v] == '\'') {
        let q = quote_run_end_exec(t, v + 1);
        if q > v + 1 && q < t.len() {
            return Some((v + 1, q, q + 1));
        }
    }
    let b = bare_run_end_exec(t, v);
    if b > v {
        Some((v, b, b))
    } else {
        None
    }
}

pub fn after_name_exec(t: &Vec<char>, n: usize) -> (r: Option<(usize, usize, usize)>)
    requires
        n <= t.len(),
    ensures
        match r {
            Some(x) => after_name(t@, n as int) == Some((x.0 as int, x.1 as int, x.2 as int))
                && n < x.0 <= x.1 <= x.2 <= t.len() && x.2 > n,
            None => after_name(t@, n as int) is None,
        },
{
    let e = skip_ws_exec(t, n);
    if e < t.len() && t[e] == '=' {
        let v = skip_ws_exec(t, e + 1);
        value_at_exec(t, v)
    } else {
        None
    }
}

fn word(cs: &[char]) -> (v: Vec<char>)
    ensures
        v@ == cs@,
{
    let mut v: Vec<char> = Vec::new();
    let mut i: usize = 0;
    while i < cs.len()
        invariant
            i <= cs.len(),
            v@ == cs@.take(i as int),
        decreases cs.len() - i,
    {
        v.push(cs[i]);
        assert(cs@.take(i + 1) =~= cs@.take(i as int).push(cs@[i as int]));
        i = i + 1;
    }
    assert(cs@.take(i as int) =~= cs@);
    v
}

pub fn attr_name_chars(k: usize) -> (v: Vec<char>)
    requires
        k < 6,
    ensures
        v@ == attr_names()[k as int],
{
    let v = if k == 0 {
        word(&['h', 'r', 'e', 'f'])
    } else if k == 1 {
        word(&['s', 'r', 'c'])
    } else if k == 2 {
        word(&['a', 'c', 't', 'i', 'o', 'n'])
    } else if k == 3 {
        word(&['d', 'a', 't', 'a'])
    } else if k == 4 {
        word(&['p', 'o', 's', 't', 'e', 'r'])
    } else {
        word(&['s', 'r', 'c', 's', 'e', 't'])
    };
    assert(v@ =~= attr_names()[k as int]);
    v
}

/// `attr_match_at`, computed.
pub fn attr_match_exec(t: &Vec<char>, p: usize) -> (r: Option<(usize, usize, usize, usize)>)
    requires
        p <= t.len(),
    ensures
        match r {
            Some(x) => attr_match_at(t@, p as int) == Some((x.0 as int, x.1 as int, x.2 as int, x.3 as int))
                && p < x.0 <= x.1 <= x.2 <= x.3 <= t.len(),
            None => attr_match_at(t@, p as int) is None,
        },
{
    let mut k: usize = 0;
    while k < 6
        invariant
            k <= 6,
            p <= t.len(),
            attr_match_at(t@, p as int) == attr_match_from(t@, p as int, k as int),
        decreases 6 - k,
    {
        let w = attr_name_chars(k);
        if keyword_at_exec(t, p, &w) {
            assert(w@.len() > 0);
            match after_name_exec(t, p + w.len()) {
                Some(v) => {
                    return Some((p + w.len(), v.0, v.1, v.2));
                },
                None => {},
            }
        }
        k = k + 1;
    }
    None
}

} // verus!
