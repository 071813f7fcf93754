//! Stylesheets: the `url(...)` references they hold, and rewriting them to
//! point at local files.
//!
//! A reference is `url(`, an optional quote (`'` or `"`), at least one
//! character that is neither a quote nor `)`, an optional quote, and `)`.
//! References are found left to right without overlap.
use vstd::prelude::*;
use crate::text::{chars_of, string_from_chars, push_chars, subvec, has_at, starts_with, matches_at};
use crate::url_model::{WebUrl, UrlView, spec_url_join, url_views};
use crate::asset_map::AssetPaths;
use crate::local_path::{local_path_for, url_to_local_path};
use crate::fs_paths::path_parent;
use crate::link_target::{LinkEnv, LinkContext, resolved_link, resolve_link};
use crate::html_scan::is_quote;
use crate::html_links::{current_dir_for, starts_with_str};

verus! {

pub open spec fn url_open() -> Seq<char> {
    seq!['u', 'r', 'l', '(']
}

/// The first position at or after `i` holding a quote or `)`, or the end.
pub open spec fn css_run_end(t: Seq<char>, i: int) -> int
    decreases t.len() - i,
{
    if 0 <= i < t.len() && !is_quote(t[i]) && t[i] != ')' {
        css_run_end(t, i + 1)
    } else {
        i
    }
}

/// The reference that begins at `p`: (start of the link, its end, end of
/// the match).
pub open spec fn css_url_at(t: Seq<char>, p: int) -> Option<(int, int, int)> {
    if matches_at(t, p, url_open()) {
        let q = p + 4;
        let s = if q < t.len() && is_quote(t[q]) { q + 1 } else { q };
        let e = css_run_end(t, s);
        if e > s && e < t.len() && t[e] == ')' {
            Some((s, e, e + 1))
        } else if e > s && e + 1 < t.len() && is_quote(t[e]) && t[e + 1] == ')' {
            Some((s, e, e + 2))
        } else {
            None
        }
    } else {
        None
    }
}

/// The URLs that the references from `pos` on resolve to against `u`,
/// leaving out `data:` links and links that do not resolve.
pub open spec fn css_assets_from(t: Seq<char>, pos: int, u: UrlView) -> Seq<UrlView>
    decreases t.len() - pos,
{
    if pos < 0 || pos >= t.len() {
        Seq::empty()
    } else {
        match css_url_at(t, pos) {
            Some(m) => if pos < m.2 <= t.len() {
                let link = t.subrange(m.0, m.1);
                let rest = css_assets_from(t, m.2, u);
                if !starts_with(link, "data:"@) && spec_url_join(u, link) is Some {
                    seq![spec_url_join(u, link).unwrap()] + rest
                } else {
                    rest
                }
            } else {
                Seq::empty()
            },
            None => css_assets_from(t, pos + 1, u),
        }
    }
}

/// A reference rewritten: `url('...')` around the link, resolved unless it
/// is a `data:` link.
pub open spec fn css_replacement(link: Seq<char>, env: LinkEnv) -> Seq<char> {
    let inner = if starts_with(link, "data:"@) { link } else { resolved_link(link, env) };
    seq!['u', 'r', 'l', '(', '\''] + inner + seq!['\'', ')']
}

/// The text from `pos` on with every reference rewritten.
pub open spec fn rewrite_css_from(t: Seq<char>, pos: int, env: LinkEnv) -> Seq<char>
    decreases t.len() - pos,
{
    if pos < 0 || pos >= t.len() {
        Seq::empty()
    } else {
        match css_url_at(t, pos) {
            Some(m) => if pos < m.2 <= t.len() {
                css_replacement(t.subrange(m.0, m.1), env) + rewrite_css_from(t, m.2, env)
            } else {
                Seq::empty()
            },
            None => seq![t[pos]] + rewrite_css_from(t, pos + 1, env),
        }
    }
}

/// A stylesheet with its references rewritten; unchanged when the
/// stylesheet itself has no local file.
pub open spec fn rewritten_css(
    css: Seq<char>,
    css_url: UrlView,
    base: UrlView,
    out: Seq<char>,
    rs: bool,
    assets: Map<Seq<char>, Seq<char>>,
) -> Seq<char> {
    match local_path_for(css_url, base, out, rs, None) {
        None => css,
        Some(cur) => rewrite_css_from(
            css,
            0,
            LinkEnv { page: css_url, base, out_dir: out, rs, assets, cur_dir: current_dir_for(cur, out) },
        ),
    }
}

// ---- exec ----

fn url_open_chars() -> (v: Vec<char>)
    ensures
        v@ == url_open(),
{
    let mut v: Vec<char> = Vec::new();
    v.push('u');
    v.push('r');
    v.push('l');
    v.push('(');
    assert(v@ =~= url_open());
    v
}

fn css_run_end_exec(t: &Vec<char>, i: usize) -> (r: usize)
    requires
        i <= t.len(),
    ensures
        r as int == css_run_end(t@, i as int),
        i <= r <= t.len(),
{
    let mut k = i;
    while k < t.len() && !(t[k] == '"' || t[k] == '\'') && t[k] != ')'
        invariant
            i <= k <= t.len(),
            css_run_end(t@, i as int) == css_run_end(t@, k as int),
        decreases t.len() - k,
    {
        k = k + 1;
    }
    k
}

/// `css_url_at`, computed.
pub fn css_url_exec(t: &Vec<char>, p: usize, open: &Vec<char>) -> (r: Option<(usize, usize, usize)>)
    requires
        p <= t.len(),
        open@ == url_open(),
    ensures
        match r {
            Some(m) => css_url_at(t@, p as int) == Some((m.0 as int, m.1 as int, m.2 as int))
                && p < m.0 <= m.1 <= m.2 <= t.len(),
            None => css_url_at(t@, p as int) is None,
        },
{
    if !has_at(t, p, open) {
        return None;
    }
    let q = p + 4;
    let s = if q < t.len() && (t[q] == '"' || t[q] == '\'') { q + 1 } else { q };
    let e = css_run_end_exec(t, s);
    if e > s && e < t.len() && t[e] == ')' {
        Some((s, e, e + 1))
    } else if e > s && e < t.len() && e + 1 < t.len() && (t[e] == '"' || t[e] == '\'') && t[e + 1] == ')' {
        Some((s, e, e + 2))
    } else {
        None
    }
}

/// The URLs referenced by `url(...)` in a stylesheet, resolved against the
/// stylesheet's URL, in order of appearance, leaving out `data:` links and
/// links that do not resolve.
pub fn extract_css_assets(css_content: &str, css_url: &WebUrl) -> (res: Vec<WebUrl>)
    ensures
        url_views(res@) == css_assets_from(css_content@, 0, css_url@),
{
    let t = chars_of(css_content);
    let open = url_open_chars();
    let mut assets: Vec<WebUrl> = Vec::new();
    let mut pos: usize = 0;
    while pos < t.len()
        invariant
            pos <= t.len(),
            t@ == css_content@,
            open@ == url_open(),
            css_assets_from(t@, 0, css_url@) == url_views(assets@) + css_assets_from(t@, pos as int, css_url@),
        decreases t.len() - pos,
    {
        match css_url_exec(&t, pos, &open) {
            Some(m) => {
                let link = subvec(&t, m.0, m.1);
                if !starts_with_str(&link, "data:") {
                    let link_s = string_from_chars(&link);
                    match css_url.join(link_s.as_str()) {
                        Some(u) => {
                            let ghost before = assets@;
                            assets.push(u);
                            assert(url_views(assets@) =~= url_views(before) + seq![u@]);
                        },
                        None => {},
                    }
                }
                pos = m.2;
            },
            None => {
                pos = pos + 1;
            },
        }
    }
    assert(css_assets_from(t@, pos as int, css_url@) =~= Seq::<UrlView>::empty());
    assert(url_views(assets@) =~= url_views(assets@) + Seq::<UrlView>::empty());
    assets
}

fn css_replacement_exec(link: &Vec<char>, ctx: &LinkContext) -> (r: Vec<char>)
    ensures
        r@ == css_replacement(link@, ctx.env()),
{
    let inner = if starts_with_str(link, "data:") { link.clone() } else { resolve_link(link, ctx) };
    let mut r: Vec<char> = Vec::new();
    r.push('u');
    r.push('r');
    r.push('l');
    r.push('(');
    r.push('\'');
    push_chars(&mut r, &inner);
    r.push('\'');
    r.push(')');
    assert(r@ =~= seq!['u', 'r', 'l', '(', '\''] + inner@ + seq!['\'', ')']);
    r
}

/// Rewrites the `url(...)` references of a stylesheet so that references
/// to files of the site lead to their local copies, by relative paths from
/// the stylesheet's own local file; every reference comes out as
/// `url('...')`. When the stylesheet has no local file, it is returned
/// unchanged.
pub fn rewrite_css_links(
    css: &str,
    css_url: &WebUrl,
    base_url: &WebUrl,
    output_dir: &str,
    replace_special: bool,
    asset_paths: &AssetPaths,
) -> (res: String)
    ensures
        res@ == rewritten_css(css@, css_url@, base_url@, output_dir@, replace_special, asset_paths@),
{
    let current = match url_to_local_path(css_url, base_url, output_dir, replace_special, None) {
        Some(p) => p,
        None => return css.to_owned(),
    };
    let current_dir = match path_parent(current.as_str()) {
        Some(d) => d,
        None => output_dir.to_owned(),
    };
    let ctx = LinkContext {
        page: css_url,
        base: base_url,
        output_dir,
        replace_special,
        assets: asset_paths,
        current_dir,
    };
    let ghost env = ctx.env();
    let t = chars_of(css);
    let open = url_open_chars();
    let mut out: Vec<char> = Vec::new();
    let mut pos: usize = 0;
    while pos < t.len()
        invariant
            pos <= t.len(),
            env == ctx.env(),
            open@ == url_open(),
            rewrite_css_from(t@, 0, env) == out@ + rewrite_css_from(t@, pos as int, env),
        decreases t.len() - pos,
    {
        match css_url_exec(&t, pos, &open) {
            Some(m) => {
                let link = subvec(&t, m.0, m.1);
                let rep = css_replacement_exec(&link, &ctx);
                push_chars(&mut out, &rep);
                pos = m.2;
            },
            None => {
                out.push(t[pos]);
                pos = pos + 1;
            },
        }
    }
    assert(rewrite_css_from(t@, pos as int, env) =~= Seq::<char>::empty());
    assert(out@ =~= rewrite_css_from(t@, 0, env));
    string_from_chars(&out)
}

} // verus!
