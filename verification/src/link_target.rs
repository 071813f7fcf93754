//! Where a link found in a page or a stylesheet leads among the local files.
use vstd::prelude::*;
use crate::url_model::{WebUrl, UrlView, spec_url_join};
use crate::asset_map::{AssetPaths, map_get};
use crate::local_path::{local_path_for, url_to_local_path};
use crate::fs_paths::{spec_diff_paths, relative_path, spec_path_file_name, path_file_name};
use crate::text::{chars_of, opt_view, string_from_chars, push_chars};

verus! {

/// What the rewriting of one document knows: the document's URL, the
/// site's URL, the output directory, whether file names are sanitized, the
/// files already chosen for assets, and the directory of the document's
/// own local file.
pub struct LinkEnv {
    pub page: UrlView,
    pub base: UrlView,
    pub out_dir: Seq<char>,
    pub rs: bool,
    pub assets: Map<Seq<char>, Seq<char>>,
    pub cur_dir: Seq<char>,
}

/// Backslashes turned into slashes (`str::replace('\\', "/")`).
pub open spec fn slashes(s: Seq<char>) -> Seq<char> {
    s.map_values(|c: char| if c == '\\' { '/' } else { c })
}

/// The local file for a URL found in a document: the one recorded for it,
/// or else the one it maps to.
pub open spec fn target_file(t: UrlView, env: LinkEnv) -> Option<Seq<char>> {
    match map_get(env.assets, t.href) {
        Some(p) => Some(p),
        None => local_path_for(t, env.base, env.out_dir, env.rs, None),
    }
}

/// A link that leads to a local file: the URL it resolves to, that URL's
/// local file, and the relative path (with `/` separators) from the
/// document's directory to that file. `None` when the link does not
/// resolve, leaves the site's host, has no local file, or no relative path
/// reaches it.
pub open spec fn local_target(link: Seq<char>, env: LinkEnv) -> Option<(UrlView, Seq<char>, Seq<char>)> {
    match spec_url_join(env.page, link) {
        Some(t) => if t.host == env.base.host {
            match target_file(t, env) {
                Some(tlp) => match spec_diff_paths(tlp, env.cur_dir) {
                    Some(rel) => Some((t, tlp, slashes(rel))),
                    None => None,
                },
                None => None,
            }
        } else {
            None
        },
        None => None,
    }
}

/// The exec side of `LinkEnv`.
pub struct LinkContext<'a> {
    pub page: &'a WebUrl,
    pub base: &'a WebUrl,
    pub output_dir: &'a str,
    pub replace_special: bool,
    pub assets: &'a AssetPaths,
    pub current_dir: String,
}

impl<'a> LinkContext<'a> {
    pub open spec fn env(&self) -> LinkEnv {
        LinkEnv {
            page: self.page@,
            base: self.base@,
            out_dir: self.output_dir@,
            rs: self.replace_special,
            assets: self.assets@,
            cur_dir: self.current_dir@,
        }
    }
}

pub fn slashes_chars(s: &str) -> (r: Vec<char>)
    ensures
        r@ == slashes(s@),
{
    let v = chars_of(s);
    let mut r: Vec<char> = Vec::new();
    let mut i: usize = 0;
    while i < v.len()
        invariant
            i <= v.len(),
            r@ == slashes(v@.take(i as int)),
        decreases v.len() - i,
    {
        if v[i] == '\\' {
            r.push('/');
        } else {
            r.push(v[i]);
        }
        assert(v@.take(i + 1) =~= v@.take(i as int).push(v@[i as int]));
        i = i + 1;
    }
    assert(v@.take(i as int) =~= v@);
    r
}

/// `local_target`, computed.
pub fn find_local_target(link: &str, ctx: &LinkContext) -> (r: Option<(WebUrl, String, Vec<char>)>)
    ensures
        match r {
            Some(x) => local_target(link@, ctx.env()) == Some((x.0@, x.1@, x.2@)),
            None => local_target(link@, ctx.env()) is None,
        },
{
    let target = match ctx.page.join(link) {
        Some(t) => t,
        None => return None,
    };
    if !target.same_host(ctx.base) {
        return None;
    }
    let tlp = match ctx.assets.get(&target) {
        Some(p) => p,
        None => match url_to_local_path(&target, ctx.base, ctx.output_dir, ctx.replace_special, None) {
            Some(p) => p,
            None => return None,
        },
    };
    let rel = match relative_path(tlp.as_str(), ctx.current_dir.as_str()) {
        Some(r) => r,
        None => return None,
    };
    let rel_chars = slashes_chars(rel.as_str());
    Some((target, tlp, rel_chars))
}

/// A link resolved to a local file: the relative path to it (the file
/// name when that path is empty) followed by the URL's fragment; the link
/// itself when it has no local file.
pub open spec fn resolved_link(link: Seq<char>, env: LinkEnv) -> Seq<char> {
    match local_target(link, env) {
        Some(x) => {
            let r = if x.2.len() == 0 {
                match spec_path_file_name(x.1) {
                    Some(f) => f,
                    None => x.2,
                }
            } else {
                x.2
            };
            match x.0.fragment {
                Some(f) => r + seq!['#'] + f,
                None => r,
            }
        },
        None => link,
    }
}

/// `resolved_link`, computed.
pub fn resolve_link(v: &Vec<char>, ctx: &LinkContext) -> (r: Vec<char>)
    ensures
        r@ == resolved_link(v@, ctx.env()),
{
    let link_s = string_from_chars(v);
    match find_local_target(link_s.as_str(), ctx) {
        Some(x) => {
            let mut r = if x.2.len() == 0 {
                match path_file_name(x.1.as_str()) {
                    Some(f) => chars_of(f.as_str()),
                    None => x.2,
                }
            } else {
                x.2
            };
            match x.0.fragment() {
                Some(f) => {
                    r.push('#');
                    push_chars(&mut r, &chars_of(f.as_str()));
                },
                None => {},
            }
            r
        },
        None => v.clone(),
    }
}

} // verus!
