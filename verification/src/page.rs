//! The work on one crawled page or downloaded stylesheet that needs no
//! network: its local file, the document to save, and the assets to fetch.
use vstd::prelude::*;
use crate::text::opt_view;
use crate::url_model::{WebUrl, UrlView, url_views};
use crate::local_path::{local_path_for, url_to_local_path};
use crate::base_tag::{base_target, strip_base_from, handle_base_tag};
use crate::html_doc::{page_assets, extract_assets};
use crate::assets::{unique_on_host, unique_same_host};
use crate::css_links::{css_assets_from, extract_css_assets};

verus! {

/// A page's HTML without its `<base>` tags and the URL its links resolve
/// against: the `<base href>` target when there is one that resolves, else
/// the page's own URL and HTML.
pub open spec fn base_resolved(html: Seq<char>, page: UrlView) -> (Seq<char>, UrlView) {
    match base_target(html, page) {
        Some(b) => (strip_base_from(html, 0), b),
        None => (html, page),
    }
}

/// What a crawled page needs before its assets are fetched.
pub struct PagePlan {
    /// The page's local file.
    pub local_path: String,
    /// The HTML to rewrite and save.
    pub html: String,
    /// The URL its links resolve against.
    pub effective_url: WebUrl,
    /// The assets to fetch: on the site's host, each once.
    pub assets: Vec<WebUrl>,
}

/// The plan for a crawled page; `None` when the page has no local file
/// (its host is not the site's), in which case nothing is saved.
pub fn plan_page(
    html: &str,
    page_url: &WebUrl,
    base_url: &WebUrl,
    output_dir: &str,
    replace_special: bool,
) -> (res: Option<PagePlan>)
    ensures
        res is None <==> local_path_for(page_url@, base_url@, output_dir@, replace_special, None) is None,
        res matches Some(p) ==> {
            let (h, eff) = base_resolved(html@, page_url@);
            &&& local_path_for(page_url@, base_url@, output_dir@, replace_special, None) == Some(p.local_path@)
            &&& p.html@ == h
            &&& p.effective_url@ == eff
            &&& url_views(p.assets@) == unique_on_host(page_assets(h, eff), base_url@)
        },
{
    let (clean, effective) = handle_base_tag(html, page_url);
    let local = match url_to_local_path(page_url, base_url, output_dir, replace_special, None) {
        Some(p) => p,
        None => return None,
    };
    let found = extract_assets(clean.as_str(), &effective);
    let assets = unique_same_host(&found, base_url);
    Some(PagePlan { local_path: local, html: clean, effective_url: effective, assets })
}

/// The assets a downloaded stylesheet references that are fetched: on the
/// site's host, each once.
pub fn plan_css_assets(css: &str, css_url: &WebUrl, base_url: &WebUrl) -> (res: Vec<WebUrl>)
    ensures
        url_views(res@) == unique_on_host(css_assets_from(css@, 0, css_url@), base_url@),
{
    let found = extract_css_assets(css, css_url);
    unique_same_host(&found, base_url)
}

} // verus!
