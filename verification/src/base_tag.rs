//! The `<base>` element: a page may name the URL its links resolve
//! against, and the saved copy drops the element.
//!
//! A `<base>` tag in the text is `<base` (case-insensitive), white space,
//! and, before the first `>` that follows, `href` (case-insensitive),
//! optional white space, `=`, optional white space, an optional quote and
//! at least one character that is neither a quote nor `>`. The tag runs to
//! that first `>`.
use vstd::prelude::*;
use crate::text::{is_ws, is_ws_char, chars_of, string_from_chars};
use crate::url_model::{WebUrl, UrlView, spec_url_join};
use crate::html_scan::{keyword_at, keyword_at_exec, skip_ws, skip_ws_exec, is_quote};
use crate::html_doc::{spec_select_attr, select_attr};

verus! {

pub open spec fn base_word() -> Seq<char> {
    seq!['b', 'a', 's', 'e']
}

pub open spec fn href_word() -> Seq<char> {
    seq!['h', 'r', 'e', 'f']
}

/// The first position at or after `i` holding `>`, or the end.
pub open spec fn next_gt(t: Seq<char>, i: int) -> int
    decreases t.len() - i,
{
    if 0 <= i < t.len() && t[i] != '>' {
        next_gt(t, i + 1)
    } else {
        i
    }
}

/// After `href` ending at `j`, before the `>` at `g`: `=` and a value.
pub open spec fn href_value_ok(t: Seq<char>, j: int, g: int) -> bool {
    let e = skip_ws(t, j);
    let r = e + 1;
    &&& e < g
    &&& t[e] == '='
    &&& r < g
    &&& (!is_quote(t[r]) || (r + 1 < g && !is_quote(t[r + 1])))
}

/// `href` with a value begins at `i` inside a tag ending at `g`.
pub open spec fn href_at(t: Seq<char>, i: int, g: int) -> bool {
    i + 4 <= g && keyword_at(t, i, href_word()) && href_value_ok(t, i + 4, g)
}

/// The end of the `<base>` tag that begins at `p`, if one does.
pub open spec fn base_tag_at(t: Seq<char>, p: int) -> Option<int> {
    let g = next_gt(t, p + 5);
    if 0 <= p < t.len() && t[p] == '<' && keyword_at(t, p + 1, base_word()) && g < t.len() && p + 5 < g
        && is_ws(t[p + 5]) && exists|i: int| p + 6 <= i && #[trigger] href_at(t, i, g) {
        Some(g + 1)
    } else {
        None
    }
}

/// The text from `pos` on without its `<base>` tags.
pub open spec fn strip_base_from(t: Seq<char>, pos: int) -> Seq<char>
    decreases t.len() - pos,
{
    if pos < 0 || pos >= t.len() {
        Seq::empty()
    } else {
        match base_tag_at(t, pos) {
            Some(e) => if pos < e <= t.len() {
                strip_base_from(t, e)
            } else {
                Seq::empty()
            },
            None => seq![t[pos]] + strip_base_from(t, pos + 1),
        }
    }
}

/// The URL named by the first `<base href>` element of the parsed
/// document, resolved against the page's URL.
pub open spec fn base_target(html: Seq<char>, page: UrlView) -> Option<UrlView> {
    match spec_select_attr(html, "base[href]"@, "href"@) {
        Some(vals) => if vals.len() > 0 {
            match vals[0] {
                Some(href) => spec_url_join(page, href),
                None => None,
            }
        } else {
            None
        },
        None => None,
    }
}

// ---- exec ----

fn word4(a: char, b: char, c: char, d: char) -> (v: Vec<char>)
    ensures
        v@ == seq![a, b, c, d],
{
    let mut v: Vec<char> = Vec::new();
    v.push(a);
    v.push(b);
    v.push(c);
    v.push(d);
    assert(v@ =~= seq![a, b, c, d]);
    v
}

fn next_gt_exec(t: &Vec<char>, i: usize) -> (r: usize)
    requires
        i <= t.len(),
    ensures
        r as int == next_gt(t@, i as int),
        i <= r <= t.len(),
{
    let mut k = i;
    while k < t.len() && t[k] != '>'
        invariant
            i <= k <= t.len(),
            next_gt(t@, i as int) == next_gt(t@, k as int),
        decreases t.len() - k,
    {
        k = k + 1;
    }
    k
}

fn href_at_exec(t: &Vec<char>, i: usize, g: usize, href: &Vec<char>) -> (r: bool)
    requires
        i <= g < t.len(),
        href@ == href_word(),
    ensures
        r == href_at(t@, i as int, g as int),
{
    if g - i < 4 || !keyword_at_exec(t, i, href) {
        return false;
    }
    let e = skip_ws_exec(t, i + 4);
    if !(e < g && t[e] == '=') {
        return false;
    }
    let r = e + 1;
    if r >= g {
        return false;
    }
    let q0 = t[r] == '"' || t[r] == '\'';
    if !q0 {
        return true;
    }
    r + 1 < g && !(t[r + 1] == '"' || t[r + 1] == '\'')
}

/// `base_tag_at`, computed.
fn base_tag_exec(t: &Vec<char>, p: usize, base: &Vec<char>, href: &Vec<char>) -> (r: Option<usize>)
    requires
        p < t.len(),
        base@ == base_word(),
        href@ == href_word(),
    ensures
        match r {
            Some(e) => base_tag_at(t@, p as int) == Some(e as int) && p < e <= t.len(),
            None => base_tag_at(t@, p as int) is None,
        },
{
    if !(t[p] == '<' && keyword_at_exec(t, p + 1, base)) {
        return None;
    }
    let g = next_gt_exec(t, p + 5);
    if !(g < t.len() && p + 5 < g && is_ws_char(t[p + 5])) {
        return None;
    }
    let mut i = p + 6;
    while i < g
        invariant
            p + 6 <= i <= g < t.len(),
            g as int == next_gt(t@, p + 5),
            t@[p as int] == '<',
            keyword_at(t@, p + 1, base_word()),
            is_ws(t@[p + 5]),
            href@ == href_word(),
            forall|k: int| p + 6 <= k < i ==> !#[trigger] href_at(t@, k, g as int),
        decreases g - i,
    {
        if href_at_exec(t, i, g, href) {
            assert(href_at(t@, i as int, next_gt(t@, p + 5)));
            return Some(g + 1);
        }
        i = i + 1;
    }
    assert(forall|k: int| p + 6 <= k ==> !#[trigger] href_at(t@, k, g as int)) by {
        assert forall|k: int| p + 6 <= k implies !#[trigger] href_at(t@, k, g as int) by {
            if k >= g {
                assert(!(k + 4 <= g));
            }
        }
    }
    None
}

/// The text without its `<base>` tags.
pub fn strip_base_tags(html: &str) -> (res: String)
    ensures
        res@ == strip_base_from(html@, 0),
{
    let t = chars_of(html);
    let base = word4('b', 'a', 's', 'e');
    let href = word4('h', 'r', 'e', 'f');
    assert(base@ =~= base_word());
    assert(href@ =~= href_word());
    let mut out: Vec<char> = Vec::new();
    let mut pos: usize = 0;
    while pos < t.len()
        invariant
            pos <= t.len(),
            base@ == base_word(),
            href@ == href_word(),
            strip_base_from(t@, 0) == out@ + strip_base_from(t@, pos as int),
        decreases t.len() - pos,
    {
        match base_tag_exec(&t, pos, &base, &href) {
            Some(e) => {
                pos = e;
            },
            None => {
                out.push(t[pos]);
                pos = pos + 1;
            },
        }
    }
    assert(out@ =~= strip_base_from(t@, 0));
    string_from_chars(&out)
}

/// When the page names a base URL in a `<base href>` element that resolves,
/// the page without its `<base>` tags and that URL; else the page as it is
/// and its own URL.
pub fn handle_base_tag(html_content: &str, page_url: &WebUrl) -> (res: (String, WebUrl))
    ensures
        match base_target(html_content@, page_url@) {
            Some(b) => res.0@ == strip_base_from(html_content@, 0) && res.1@ == b,
            None => res.0@ == html_content@ && res.1@ == page_url@,
        },
{
    match select_attr(html_content, "base[href]", "href") {
        Some(vals) => {
            if vals.len() > 0 {
                match &vals[0] {
                    Some(href) => match page_url.join(href.as_str()) {
                        Some(new_base) => {
                            return (strip_base_tags(html_content), new_base);
                        },
                        None => {},
                    },
                    None => {},
                }
            }
        },
        None => {},
    }
    (html_content.to_owned(), page_url.duplicate())
}

} // verus!
