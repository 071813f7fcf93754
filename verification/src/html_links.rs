//! Rewriting the links of an HTML page so that they point at local files.
use vstd::prelude::*;
use crate::text::{chars_of, string_from_chars, push_chars, subvec, has_at, starts_with, matches_at};
use crate::url_model::{WebUrl, UrlView};
use crate::asset_map::AssetPaths;
use crate::local_path::{local_path_for, url_to_local_path, split_on, lemma_split_on_nonempty};
use crate::fs_paths::{spec_path_parent, path_parent};
use crate::link_target::{LinkEnv, LinkContext, local_target, find_local_target, resolved_link, resolve_link};
use crate::html_scan::{attr_match_at, attr_match_exec};
use crate::words::{trim_ws, first_token, second_token, join_with, trim_chars, two_tokens, join_step};

verus! {

/// `a` equals the lowercase ASCII word `w` when ASCII letters are compared
/// without case (`str::eq_ignore_ascii_case`).
pub open spec fn ascii_ci_word(a: Seq<char>, w: Seq<char>) -> bool {
    a.len() == w.len() && forall|j: int| #![trigger w[j]] 0 <= j < w.len() ==> (a[j] == w[j] || (a[j] as int) + 32 == (w[j] as int))
}

pub open spec fn srcset_word() -> Seq<char> {
    seq!['s', 'r', 'c', 's', 'e', 't']
}

/// One candidate of a `srcset` value, rewritten: its URL replaced by the
/// relative path of its local file (`./` when that path is empty), followed
/// by its first descriptor; kept as it is when it has no URL, its URL is a
/// `data:` URL, or it has no local file.
pub open spec fn srcset_part(part: Seq<char>, env: LinkEnv) -> Seq<char> {
    let tr = trim_ws(part);
    let link = first_token(tr);
    let desc = second_token(tr);
    if tr.len() == 0 || starts_with(link, "data:"@) {
        part
    } else {
        match local_target(link, env) {
            Some(x) => {
                let r = if x.2.len() == 0 { seq!['.', '/'] } else { x.2 };
                if desc.len() == 0 {
                    r
                } else {
                    r + seq![' '] + desc
                }
            },
            None => part,
        }
    }
}

/// A `srcset` value with each comma-separated candidate rewritten, joined
/// with `", "`.
pub open spec fn srcset_value(v: Seq<char>, env: LinkEnv) -> Seq<char> {
    join_with(split_on(v, ',').map_values(|p: Seq<char>| srcset_part(p, env)), seq![',', ' '])
}

/// A link value rewritten: `data:`, `mailto:` and `tel:` links are kept,
/// others are resolved.
pub open spec fn link_value(link: Seq<char>, env: LinkEnv) -> Seq<char> {
    if starts_with(link, "data:"@) || starts_with(link, "mailto:"@) || starts_with(link, "tel:"@) {
        link
    } else {
        resolved_link(link, env)
    }
}

/// The text that replaces an attribute match `m` that begins at `p`: the
/// name as written, `="`, the rewritten value, `"`.
pub open spec fn attr_replacement(t: Seq<char>, p: int, m: (int, int, int, int), env: LinkEnv) -> Seq<char> {
    let attr = t.subrange(p, m.0);
    let value = t.subrange(m.1, m.2);
    let inner = if ascii_ci_word(attr, srcset_word()) { srcset_value(value, env) } else { link_value(value, env) };
    attr + seq!['=', '"'] + inner + seq!['"']
}

/// The text from `pos` on with every attribute match replaced, matches
/// being found left to right without overlap.
pub open spec fn rewrite_attrs_from(t: Seq<char>, pos: int, env: LinkEnv) -> Seq<char>
    decreases t.len() - pos,
{
    if pos < 0 || pos >= t.len() {
        Seq::empty()
    } else {
        match attr_match_at(t, pos) {
            Some(m) => if pos < m.3 <= t.len() {
                attr_replacement(t, pos, m, env) + rewrite_attrs_from(t, m.3, env)
            } else {
                Seq::empty()
            },
            None => seq![t[pos]] + rewrite_attrs_from(t, pos + 1, env),
        }
    }
}

/// The directory of a local file (`Path::parent`), or else the output directory.
pub open spec fn current_dir_for(cur: Seq<char>, out: Seq<char>) -> Seq<char> {
    match spec_path_parent(cur) {
        Some(d) => d,
        None => out,
    }
}

/// A page's HTML with its links rewritten; unchanged when the page itself
/// has no local file.
pub open spec fn rewritten_html(
    html: Seq<char>,
    page: UrlView,
    base: UrlView,
    out: Seq<char>,
    rs: bool,
    assets: Map<Seq<char>, Seq<char>>,
) -> Seq<char> {
    match local_path_for(page, base, out, rs, None) {
        None => html,
        Some(cur) => rewrite_attrs_from(
            html,
            0,
            LinkEnv { page, base, out_dir: out, rs, assets, cur_dir: current_dir_for(cur, out) },
        ),
    }
}

// ---- exec ----

pub fn starts_with_str(v: &Vec<char>, lit: &str) -> (r: bool)
    ensures
        r == starts_with(v@, lit@),
{
    let p = chars_of(lit);
    let r = has_at(v, 0, &p);
    assert(r == starts_with(v@, lit@)) by {
        if p@.len() <= v@.len() {
            assert(v@.subrange(0, p@.len() as int) =~= v@.take(p@.len() as int));
        }
    }
    r
}

fn same_or_upper(c: char, x: char) -> (r: bool)
    ensures
        r == (c == x || (c as int) + 32 == (x as int)),
{
    c == x || ((x as u32) >= 32 && (c as u32) == (x as u32) - 32)
}

pub fn ascii_ci_word_exec(a: &Vec<char>, w: &Vec<char>) -> (r: bool)
    ensures
        r == ascii_ci_word(a@, w@),
{
    if a.len() != w.len() {
        return false;
    }
    let mut j: usize = 0;
    while j < w.len()
        invariant
            a.len() == w.len(),
            j <= w.len(),
            forall|k: int| #![trigger w@[k]] 0 <= k < j ==> (a@[k] == w@[k] || (a@[k] as int) + 32 == (w@[k] as int)),
        decreases w.len() - j,
    {
        if !same_or_upper(a[j], w[j]) {
            return false;
        }
        j = j + 1;
    }
    true
}

fn srcset_chars() -> (v: Vec<char>)
    ensures
        v@ == srcset_word(),
{
    let mut v: Vec<char> = Vec::new();
    v.push('s');
    v.push('r');
    v.push('c');
    v.push('s');
    v.push('e');
    v.push('t');
    assert(v@ =~= srcset_word());
    v
}

/// `srcset_part`, computed.
fn srcset_part_exec(part: &Vec<char>, ctx: &LinkContext) -> (r: Vec<char>)
    ensures
        r@ == srcset_part(part@, ctx.env()),
{
    let tr = trim_chars(part);
    let (link, desc) = two_tokens(&tr);
    if tr.len() == 0 || starts_with_str(&link, "data:") {
        return part.clone();
    }
    let link_s = string_from_chars(&link);
    match find_local_target(link_s.as_str(), ctx) {
        Some(x) => {
            let mut r = if x.2.len() == 0 {
                let mut d: Vec<char> = Vec::new();
                d.push('.');
                d.push('/');
                assert(d@ =~= seq!['.', '/']);
                d
            } else {
                x.2
            };
            if desc.len() > 0 {
                r.push(' ');
                push_chars(&mut r, &desc);
            }
            r
        },
        None => part.clone(),
    }
}

/// `srcset_value`, computed.
fn srcset_value_exec(v: &Vec<char>, ctx: &LinkContext) -> (r: Vec<char>)
    ensures
        r@ == srcset_value(v@, ctx.env()),
{
    let ghost env = ctx.env();
    let ghost f = |p: Seq<char>| srcset_part(p, env);
    let mut sep: Vec<char> = Vec::new();
    sep.push(',');
    sep.push(' ');
    assert(sep@ =~= seq![',', ' ']);
    let mut out: Vec<char> = Vec::new();
    let mut cur: Vec<char> = Vec::new();
    let mut done: usize = 0;
    let mut j: usize = 0;
    assert(v@.take(0) =~= Seq::<char>::empty());
    assert(split_on(v@.take(0), ',').drop_last().map_values(f) =~= Seq::<Seq<char>>::empty());
    while j < v.len()
        invariant
            j <= v.len(),
            env == ctx.env(),
            f == (|p: Seq<char>| srcset_part(p, env)),
            sep@ == seq![',', ' '],
            split_on(v@.take(j as int), ',').len() >= 1,
            done == split_on(v@.take(j as int), ',').len() - 1,
            done <= j,
            cur@ == split_on(v@.take(j as int), ',').last(),
            out@ == join_with(split_on(v@.take(j as int), ',').drop_last().map_values(f), sep@),
        decreases v.len() - j,
    {
        let c = v[j];
        let ghost t = v@.take(j + 1);
        let ghost prev = split_on(v@.take(j as int), ',');
        assert(t.drop_last() =~= v@.take(j as int));
        if c == ',' {
            assert(split_on(t, ',') == prev.push(Seq::<char>::empty()));
            let part = srcset_part_exec(&cur, ctx);
            join_step(&mut out, done, &sep, &part);
            proof {
                let pm = prev.map_values(f);
                assert(pm.drop_last() =~= prev.drop_last().map_values(f));
                assert(pm.last() == f(prev.last()));
                assert(split_on(t, ',').drop_last() =~= prev);
                if done == 0 {
                    assert(pm =~= seq![f(prev.last())]);
                }
            }
            cur = Vec::new();
            done = done + 1;
        } else {
            assert(split_on(t, ',') == prev.update(prev.len() - 1, prev.last().push(c)));
            assert(split_on(t, ',').drop_last() =~= prev.drop_last());
            cur.push(c);
        }
        j = j + 1;
    }
    assert(v@.take(j as int) =~= v@);
    let part = srcset_part_exec(&cur, ctx);
    join_step(&mut out, done, &sep, &part);
    proof {
        let sp = split_on(v@, ',');
        let pm = sp.map_values(f);
        assert(pm.drop_last() =~= sp.drop_last().map_values(f));
        assert(pm.last() == f(sp.last()));
        if done == 0 {
            assert(pm =~= seq![f(sp.last())]);
        }
    }
    out
}

/// `link_value`, computed.
fn link_value_exec(v: &Vec<char>, ctx: &LinkContext) -> (r: Vec<char>)
    ensures
        r@ == link_value(v@, ctx.env()),
{
    if starts_with_str(v, "data:") || starts_with_str(v, "mailto:") || starts_with_str(v, "tel:") {
        return v.clone();
    }
    resolve_link(v, ctx)
}

/// `attr_replacement`, computed.
fn attr_replacement_exec(t: &Vec<char>, p: usize, m: (usize, usize, usize, usize), ctx: &LinkContext) -> (r: Vec<char>)
    requires
        p <= m.0 <= m.1 <= m.2 <= t.len(),
    ensures
        r@ == attr_replacement(t@, p as int, (m.0 as int, m.1 as int, m.2 as int, m.3 as int), ctx.env()),
{
    let attr = subvec(t, p, m.0);
    let value = subvec(t, m.1, m.2);
    let inner = if ascii_ci_word_exec(&attr, &srcset_chars()) {
        srcset_value_exec(&value, ctx)
    } else {
        link_value_exec(&value, ctx)
    };
    let mut r = attr;
    r.push('=');
    r.push('"');
    push_chars(&mut r, &inner);
    r.push('"');
    r
}

/// Rewrites the link attributes (`href`, `src`, `action`, `data`, `poster`,
/// `srcset`) of a page so that links to files of the site lead to their
/// local copies, by relative paths from the page's own local file. Values
/// come out double-quoted. When the page has no local file, the HTML is
/// returned unchanged.
pub fn rewrite_html_links(
    html: &str,
    page_url: &WebUrl,
    base_url: &WebUrl,
    output_dir: &str,
    replace_special: bool,
    asset_paths: &AssetPaths,
) -> (res: String)
    ensures
        res@ == rewritten_html(html@, page_url@, base_url@, output_dir@, replace_special, asset_paths@),
{
    let current = match url_to_local_path(page_url, base_url, output_dir, replace_special, None) {
        Some(p) => p,
        None => return html.to_owned(),
    };
    let current_dir = match path_parent(current.as_str()) {
        Some(d) => d,
        None => output_dir.to_owned(),
    };
    let ctx = LinkContext {
        page: page_url,
        base: base_url,
        output_dir,
        replace_special,
        assets: asset_paths,
        current_dir,
    };
    let ghost env = ctx.env();
    let t = chars_of(html);
    let mut out: Vec<char> = Vec::new();
    let mut pos: usize = 0;
    while pos < t.len()
        invariant
            pos <= t.len(),
            env == ctx.env(),
            rewrite_attrs_from(t@, 0, env) == out@ + rewrite_attrs_from(t@, pos as int, env),
        decreases t.len() - pos,
    {
        match attr_match_exec(&t, pos) {
            Some(m) => {
                let rep = attr_replacement_exec(&t, pos, m, &ctx);
                push_chars(&mut out, &rep);
                pos = m.3;
            },
            None => {
                out.push(t[pos]);
                pos = pos + 1;
            },
        }
    }
    assert(rewrite_attrs_from(t@, pos as int, env) =~= Seq::<char>::empty());
    assert(out@ =~= rewrite_attrs_from(t@, 0, env));
    string_from_chars(&out)
}

} // verus!
