//! White-space trimming, tokens and joining, as `str` does them.
use vstd::prelude::*;
use crate::text::{is_ws, is_ws_char, subvec, push_chars};

verus! {

/// `str::trim_start`.
pub open spec fn trim_start_ws(s: Seq<char>) -> Seq<char>
    decreases s.len(),
{
    if s.len() > 0 && is_ws(s[0]) {
        trim_start_ws(s.drop_first())
    } else {
        s
    }
}

/// `str::trim_end`.
pub open spec fn trim_end_ws(s: Seq<char>) -> Seq<char>
    decreases s.len(),
{
    if s.len() > 0 && is_ws(s.last()) {
        trim_end_ws(s.drop_last())
    } else {
        s
    }
}

/// `str::trim`.
pub open spec fn trim_ws(s: Seq<char>) -> Seq<char> {
    trim_end_ws(trim_start_ws(s))
}

/// The length of the run of non-white-space characters at the start of `s`.
pub open spec fn token_len(s: Seq<char>) -> nat
    decreases s.len(),
{
    if s.len() == 0 || is_ws(s[0]) {
        0
    } else {
        1 + token_len(s.drop_first())
    }
}

/// The first item of `split_whitespace` on a string without leading white
/// space (empty when there is none).
pub open spec fn first_token(s: Seq<char>) -> Seq<char> {
    s.take(token_len(s) as int)
}

/// The second item of `split_whitespace` on a string without leading white
/// space (empty when there is none).
pub open spec fn second_token(s: Seq<char>) -> Seq<char> {
    first_token(trim_start_ws(s.skip(token_len(s) as int)))
}

/// `join(sep)` of a list of strings.
pub open spec fn join_with(parts: Seq<Seq<char>>, sep: Seq<char>) -> Seq<char>
    decreases parts.len(),
{
    if parts.len() == 0 {
        Seq::empty()
    } else if parts.len() == 1 {
        parts[0]
    } else {
        join_with(parts.drop_last(), sep) + sep + parts.last()
    }
}

pub proof fn lemma_token_len_le(s: Seq<char>)
    ensures
        token_len(s) <= s.len(),
    decreases s.len(),
{
    if s.len() > 0 && !is_ws(s[0]) {
        lemma_token_len_le(s.drop_first());
    }
}

/// `trim_start_ws`, computed.
pub fn trim_start_chars(s: &Vec<char>) -> (r: Vec<char>)
    ensures
        r@ == trim_start_ws(s@),
{
    let mut k: usize = 0;
    assert(s@.skip(0) =~= s@);
    while k < s.len() && is_ws_char(s[k])
        invariant
            k <= s.len(),
            trim_start_ws(s@) == trim_start_ws(s@.skip(k as int)),
        decreases s.len() - k,
    {
        assert(s@.skip(k as int).drop_first() =~= s@.skip(k + 1));
        k = k + 1;
    }
    let r = subvec(s, k, s.len());
    assert(r@ =~= s@.skip(k as int));
    r
}

/// `trim_end_ws`, computed.
pub fn trim_end_chars(s: &Vec<char>) -> (r: Vec<char>)
    ensures
        r@ == trim_end_ws(s@),
{
    let mut k: usize = s.len();
    assert(s@.take(k as int) =~= s@);
    while k > 0 && is_ws_char(s[k - 1])
        invariant
            k <= s.len(),
            trim_end_ws(s@) == trim_end_ws(s@.take(k as int)),
        decreases k,
    {
        assert(s@.take(k as int).drop_last() =~= s@.take(k - 1));
        k = k - 1;
    }
    let r = subvec(s, 0, k);
    assert(r@ =~= s@.take(k as int));
    r
}

/// `trim_ws`, computed.
pub fn trim_chars(s: &Vec<char>) -> (r: Vec<char>)
    ensures
        r@ == trim_ws(s@),
{
    let a = trim_start_chars(s);
    trim_end_chars(&a)
}

/// `token_len`, computed.
pub fn token_len_exec(s: &Vec<char>) -> (r: usize)
    ensures
        r == token_len(s@),
        r <= s.len(),
{
    let mut k: usize = 0;
    assert(s@.skip(0) =~= s@);
    while k < s.len() && !is_ws_char(s[k])
        invariant
            k <= s.len(),
            token_len(s@) == k + token_len(s@.skip(k as int)),
        decreases s.len() - k,
    {
        assert(s@.skip(k as int).drop_first() =~= s@.skip(k + 1));
        k = k + 1;
    }
    k
}

/// The first and second tokens of a string without leading white space.
pub fn two_tokens(s: &Vec<char>) -> (r: (Vec<char>, Vec<char>))
    ensures
        r.0@ == first_token(s@),
        r.1@ == second_token(s@),
{
    let n = token_len_exec(s);
    let first = subvec(s, 0, n);
    assert(first@ =~= first_token(s@));
    let rest = subvec(s, n, s.len());
    assert(rest@ =~= s@.skip(n as int));
    let rest = trim_start_chars(&rest);
    let m = token_len_exec(&rest);
    let second = subvec(&rest, 0, m);
    assert(second@ =~= second_token(s@));
    (first, second)
}

/// Appends `part` to a joined list held in `out` that already holds
/// `done` parts.
pub fn join_step(out: &mut Vec<char>, done: usize, sep: &Vec<char>, part: &Vec<char>)
    ensures
        final(out)@ == if done == 0 { part@ } else { old(out)@ + sep@ + part@ },
{
    if done == 0 {
        out.clear();
        push_chars(out, part);
        assert(out@ =~= part@);
    } else {
        push_chars(out, sep);
        push_chars(out, part);
    }
}

} // verus!
