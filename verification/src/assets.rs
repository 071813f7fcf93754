//! Choosing the assets of a document to fetch, and their local files.
use vstd::prelude::*;
use crate::text::{opt_view, chars_of, str_eq};
use crate::url_model::{WebUrl, UrlView, url_views};
use crate::local_path::{split_on, host_in_scope, is_dir_path, opt_str_view, local_path_for, url_to_local_path, push_segments};
use crate::html_doc::opt_string_views;
use crate::text::seq_or_empty;

verus! {

/// Some URL of `s` has the serialization `h`.
pub open spec fn has_href(s: Seq<UrlView>, h: Seq<char>) -> bool {
    exists|i: int| 0 <= i < s.len() && (#[trigger] s[i]).href == h
}

/// The URLs of `s` on the site's exact host, each serialization once, in
/// order of first appearance.
pub open spec fn unique_on_host(s: Seq<UrlView>, base: UrlView) -> Seq<UrlView>
    decreases s.len(),
{
    if s.len() == 0 {
        Seq::empty()
    } else {
        let prev = unique_on_host(s.drop_last(), base);
        let u = s.last();
        if u.host == base.host && !has_href(prev, u.href) {
            prev.push(u)
        } else {
            prev
        }
    }
}

/// The assets of a document that are fetched: those on the site's host,
/// each URL once.
pub fn unique_same_host(urls: &Vec<WebUrl>, base: &WebUrl) -> (res: Vec<WebUrl>)
    ensures
        url_views(res@) == unique_on_host(url_views(urls@), base@),
{
    let ghost uv = url_views(urls@);
    let mut res: Vec<WebUrl> = Vec::new();
    let mut i: usize = 0;
    assert(uv.take(0) =~= Seq::<UrlView>::empty());
    assert(url_views(res@) =~= Seq::<UrlView>::empty());
    while i < urls.len()
        invariant
            i <= urls.len(),
            uv == url_views(urls@),
            url_views(res@) == unique_on_host(uv.take(i as int), base@),
        decreases urls.len() - i,
    {
        let u = &urls[i];
        assert(u@ == uv[i as int]);
        assert(uv.take(i + 1).drop_last() =~= uv.take(i as int));
        assert(uv.take(i + 1).last() == uv[i as int]);
        if u.same_host(base) {
            let mut found = false;
            let mut k: usize = 0;
            while k < res.len()
                invariant
                    k <= res.len(),
                    found == (exists|j: int| 0 <= j < k && (#[trigger] url_views(res@)[j]).href == u@.href),
                decreases res.len() - k,
            {
                if res[k].same_as(u) {
                    found = true;
                }
                proof {
                    if found && !(exists|j: int| 0 <= j < k && (#[trigger] url_views(res@)[j]).href == u@.href) {
                        assert(url_views(res@)[k as int].href == u@.href);
                    }
                }
                k = k + 1;
            }
            if !found {
                let ghost before = url_views(res@);
                res.push(u.duplicate());
                assert(url_views(res@) =~= before.push(uv[i as int]));
            }
        }
        i = i + 1;
    }
    assert(uv.take(i as int) =~= uv);
    res
}

/// The extension a fetched asset's file is forced to: none when the last
/// segment of its URL path holds a `.`, else the one guessed from its
/// content type.
pub open spec fn forced_extension(path: Seq<char>, guessed: Option<Seq<char>>) -> Option<Seq<char>> {
    if split_on(path, '/').last().contains('.') {
        None
    } else {
        guessed
    }
}

/// The local file of an asset, with the extension guessed from its content
/// type unless its URL's last segment holds a `.`.
pub fn asset_local_path(
    url: &WebUrl,
    base_url: &WebUrl,
    output_dir: &str,
    replace_special: bool,
    guessed_ext: Option<&str>,
) -> (res: Option<String>)
    requires
        guessed_ext matches Some(e) ==> (host_in_scope(seq_or_empty(url@.host), seq_or_empty(base_url@.host))
            && is_dir_path(url@.path) ==> !e@.contains('/')),
    ensures
        opt_view(res) == local_path_for(url@, base_url@, output_dir@, replace_special,
            forced_extension(url@.path, opt_str_view(guessed_ext))),
{
    let path = chars_of(url.path());
    let mut scratch: Vec<char> = Vec::new();
    let last = push_segments(&mut scratch, &path, false, false);
    let mut has_dot = false;
    let mut k: usize = 0;
    while k < last.len()
        invariant
            k <= last.len(),
            has_dot == (exists|j: int| 0 <= j < k && last@[j] == '.'),
        decreases last.len() - k,
    {
        if last[k] == '.' {
            has_dot = true;
        }
        k = k + 1;
    }
    assert(has_dot == last@.contains('.'));
    let ext = if has_dot { None } else { guessed_ext };
    url_to_local_path(url, base_url, output_dir, replace_special, ext)
}

/// The extensions that `mime_guess` knows for a content type.
pub uninterp spec fn spec_mime_extensions(content_type: Seq<char>) -> Option<Seq<Seq<char>>>;

/// Calls `mime_guess::get_mime_extensions_str`. Its tables are built from
/// a list of extensions, so a known type has at least one extension, and
/// no extension is empty or holds a `/`.
#[verifier::external_body]
fn mime_extensions(content_type: &str) -> (r: Option<Vec<String>>)
    ensures
        opt_string_views(r) == spec_mime_extensions(content_type@),
        r matches Some(v) ==> v.len() > 0 && forall|i: int| 0 <= i < v.len() ==> !(#[trigger] v@[i])@.contains('/'),
{
    let exts = mime_guess::get_mime_extensions_str(content_type)?;
    let mut out = Vec::new();
    for e in exts {
        out.push(e.to_string());
    }
    Some(out)
}

/// What a `HEAD` response tells of an asset.
pub struct AssetInfo {
    pub len: u64,
    pub ext: Option<String>,
    pub supports_ranges: bool,
}

/// The first extension known for a content type.
pub open spec fn guessed_extension(content_type: Option<Seq<char>>) -> Option<Seq<char>> {
    match content_type {
        Some(c) => match spec_mime_extensions(c) {
            Some(v) => Some(v[0]),
            None => None,
        },
        None => None,
    }
}

/// The announced length (0 when absent), the first extension known for the
/// content type, and whether `Accept-Ranges` is `bytes`.
pub fn asset_info_from_head(
    content_length: Option<u64>,
    content_type: Option<&str>,
    accept_ranges: Option<&str>,
) -> (res: AssetInfo)
    ensures
        res.len == match content_length { Some(l) => l, None => 0 },
        opt_view(res.ext) == guessed_extension(opt_str_view(content_type)),
        res.ext matches Some(e) ==> !e@.contains('/'),
        res.supports_ranges == (opt_str_view(accept_ranges) == Some("bytes"@)),
{
    let len = match content_length {
        Some(l) => l,
        None => 0,
    };
    let ext = match content_type {
        Some(ct) => match mime_extensions(ct) {
            Some(v) => {
                assert(!v@[0]@.contains('/'));
                Some(v[0].clone())
            },
            None => None,
        },
        None => None,
    };
    let supports_ranges = match accept_ranges {
        Some(a) => str_eq(a, "bytes"),
        None => false,
    };
    AssetInfo { len, ext, supports_ranges }
}

} // verus!
