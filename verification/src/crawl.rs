//! Decisions of the crawl loop: which pages are processed, which sitemap
//! URLs count, where the backup goes, and the files fetched before the
//! crawl.
use vstd::prelude::*;
use crate::text::{opt_view, seq_or_empty, ends_with, chars_of, string_from_chars};
use crate::url_model::{WebUrl, UrlView, spec_url_join};
use crate::local_path::{push_path, push_component, opt_chars, is_subdomain_of};
use crate::download::limit_reached;
use base64::Engine;

verus! {

/// A URL found in a sitemap belongs to the site: same host (or both none),
/// or a subdomain of the site's host.
pub open spec fn in_sitemap_scope(u: UrlView, base: UrlView) -> bool {
    u.host == base.host || ends_with(seq_or_empty(u.host), seq!['.'] + seq_or_empty(base.host))
}

/// `in_sitemap_scope`, computed.
pub fn sitemap_url_in_scope(u: &WebUrl, base: &WebUrl) -> (r: bool)
    ensures
        r == in_sitemap_scope(u@, base@),
{
    if u.same_host(base) {
        return true;
    }
    let uh = opt_chars(u.host_str());
    let bh = opt_chars(base.host_str());
    is_subdomain_of(&uh, &bh)
}

/// The backup directory: the one given, else the site's host, else `backup`.
pub open spec fn output_dir_for(output: Option<Seq<char>>, base: UrlView) -> Seq<char> {
    match output {
        Some(o) => o,
        None => match base.host {
            Some(h) => h,
            None => "backup"@,
        },
    }
}

pub fn output_dir_name(output: Option<String>, base: &WebUrl) -> (r: String)
    ensures
        r@ == output_dir_for(opt_view(output), base@),
{
    match output {
        Some(o) => o,
        None => match base.host_str() {
            Some(h) => h.clone(),
            None => "backup".to_owned(),
        },
    }
}

/// What the crawl loop does with a page it receives.
pub enum PageAction {
    /// The file limit is reached: the loop ends.
    Stop,
    /// The page's URL does not parse.
    SkipUnparsable,
    /// An error status, and error pages are not kept.
    SkipErrorPage,
    /// The page has no HTML.
    SkipEmpty,
    Process,
}

/// The crawl loop's decision for a page, checked in this order: the file
/// limit, the URL, the status (a status of 0 counts as success), the HTML.
pub open spec fn page_action_for(
    file_count: usize,
    max_files: usize,
    url_parsed: bool,
    status: u16,
    download_error_pages: bool,
    html_empty: bool,
) -> PageAction {
    if limit_reached(file_count, max_files) {
        PageAction::Stop
    } else if !url_parsed {
        PageAction::SkipUnparsable
    } else if !(200 <= status < 300) && status != 0 && !download_error_pages {
        PageAction::SkipErrorPage
    } else if html_empty {
        PageAction::SkipEmpty
    } else {
        PageAction::Process
    }
}

/// `page_action_for`, computed.
pub fn page_action(
    file_count: usize,
    max_files: usize,
    url_parsed: bool,
    status: u16,
    download_error_pages: bool,
    html_empty: bool,
) -> (r: PageAction)
    ensures
        r == page_action_for(file_count, max_files, url_parsed, status, download_error_pages, html_empty),
{
    if max_files > 0 && file_count >= max_files {
        PageAction::Stop
    } else if !url_parsed {
        PageAction::SkipUnparsable
    } else if !(200 <= status && status < 300) && status != 0 && !download_error_pages {
        PageAction::SkipErrorPage
    } else if html_empty {
        PageAction::SkipEmpty
    } else {
        PageAction::Process
    }
}

/// The progress bar grows to one past the pages done when they reach its
/// length (100 when unset).
pub fn next_progress_length(done: u64, length: Option<u64>) -> (r: Option<u64>)
    requires
        done < u64::MAX,
    ensures
        r == if done >= (match length { Some(l) => l, None => 100 }) { Some((done + 1) as u64) } else { None::<u64> },
{
    let len = match length {
        Some(l) => l,
        None => 100,
    };
    if done >= len {
        Some(done + 1)
    } else {
        None
    }
}

/// The files fetched from the site's root before the crawl.
pub open spec fn root_files() -> Seq<Seq<char>> {
    seq!["robots.txt"@, "llms.txt"@, "llms-full.txt"@]
}

/// A root file: its URL and its path in the backup.
pub struct RootFile {
    pub url: WebUrl,
    pub path: String,
}

/// The root files of the first `k` names that resolve against the site's
/// URL, with their paths (`Path::join` onto the output directory).
pub open spec fn root_targets(base: UrlView, out: Seq<char>, k: int) -> Seq<(UrlView, Seq<char>)>
    decreases k,
{
    if k <= 0 {
        Seq::empty()
    } else {
        let prev = root_targets(base, out, k - 1);
        let f = root_files()[k - 1];
        match spec_url_join(base, f) {
            Some(u) => prev.push((u, push_path(out, f))),
            None => prev,
        }
    }
}

pub open spec fn root_file_views(v: Seq<RootFile>) -> Seq<(UrlView, Seq<char>)> {
    v.map_values(|r: RootFile| (r.url@, r.path@))
}

/// `robots.txt`, `llms.txt` and `llms-full.txt`, resolved against the site's
/// URL, with their paths in the output directory.
pub fn root_file_targets(base: &WebUrl, output_dir: &str) -> (res: Vec<RootFile>)
    ensures
        root_file_views(res@) == root_targets(base@, output_dir@, 3),
{
    let mut res: Vec<RootFile> = Vec::new();
    let mut k: usize = 0;
    assert(root_file_views(res@) =~= root_targets(base@, output_dir@, 0));
    while k < 3
        invariant
            k <= 3,
            root_file_views(res@) == root_targets(base@, output_dir@, k as int),
        decreases 3 - k,
    {
        let name = if k == 0 { "robots.txt" } else if k == 1 { "llms.txt" } else { "llms-full.txt" };
        assert(name@ == root_files()[k as int]);
        match base.join(name) {
            Some(u) => {
                let mut p = chars_of(output_dir);
                push_component(&mut p, &chars_of(name));
                let ghost before = root_file_views(res@);
                res.push(RootFile { url: u, path: string_from_chars(&p) });
                assert(root_file_views(res@) =~= before.push((res@.last().url@, res@.last().path@)));
            },
            None => {},
        }
        k = k + 1;
    }
    res
}

/// What `base64`'s standard engine (with padding) yields for the UTF-8
/// bytes of a text.
pub uninterp spec fn spec_base64_standard(text: Seq<char>) -> Seq<char>;

/// Calls `base64::engine::general_purpose::STANDARD.encode`; the encoding
/// is only named.
#[verifier::external_body]
fn base64_encode(text: &str) -> (r: String)
    ensures
        r@ == spec_base64_standard(text@),
{
    base64::engine::general_purpose::STANDARD.encode(text)
}

/// The value of the `Authorization` header for `username:password`:
/// `Basic ` followed by its Base64 encoding.
pub fn basic_auth_value(auth: &str) -> (r: String)
    ensures
        r@ == seq!['B', 'a', 's', 'i', 'c', ' '] + spec_base64_standard(auth@),
{
    let mut v: Vec<char> = Vec::new();
    v.push('B');
    v.push('a');
    v.push('s');
    v.push('i');
    v.push('c');
    v.push(' ');
    let enc = base64_encode(auth);
    crate::text::push_chars(&mut v, &chars_of(enc.as_str()));
    assert(v@ =~= seq!['B', 'a', 's', 'i', 'c', ' '] + spec_base64_standard(auth@));
    string_from_chars(&v)
}

} // verus!
