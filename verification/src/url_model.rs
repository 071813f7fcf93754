//! Absolute URLs, held as the plain values that the logic reads.
use vstd::prelude::*;
use url::Url;
use crate::text::{opt_view, opt_str_eq, clone_opt_string, str_eq};

verus! {

#[verifier::external_type_specification]
#[verifier::external_body]
pub struct ExUrl(url::Url);

/// What the logic knows of an absolute URL: its serialization and the
/// components that `url::Url` reports for it.
pub struct UrlView {
    pub href: Seq<char>,
    pub host: Option<Seq<char>>,
    pub path: Seq<char>,
    pub query: Option<Seq<char>>,
    pub fragment: Option<Seq<char>>,
}

/// An absolute URL. Every value comes from `url::Url`, so `href` is its
/// serialization and the other fields are the components of that URL.
pub struct WebUrl {
    raw: Url,
    href: String,
    host: Option<String>,
    path: String,
    query: Option<String>,
    fragment: Option<String>,
}

impl View for WebUrl {
    type V = UrlView;

    closed spec fn view(&self) -> UrlView {
        UrlView {
            href: self.href@,
            host: opt_view(self.host),
            path: self.path@,
            query: opt_view(self.query),
            fragment: opt_view(self.fragment),
        }
    }
}

/// The view of an optional URL.
pub open spec fn opt_url_view(o: Option<WebUrl>) -> Option<UrlView> {
    match o {
        Some(u) => Some(u@),
        None => None,
    }
}

/// The views of a list of URLs.
pub open spec fn url_views(v: Seq<WebUrl>) -> Seq<UrlView> {
    v.map_values(|u: WebUrl| u@)
}

/// What `url::Url::parse` yields for an input, as a URL view.
pub uninterp spec fn spec_url_parse(input: Seq<char>) -> Option<UrlView>;

/// What `url::Url::join` yields for a base URL and an input, as a URL view.
pub uninterp spec fn spec_url_join(base: UrlView, input: Seq<char>) -> Option<UrlView>;

/// Calls `url::Url::parse`. The contract only names the result: the URL
/// standard's parsing algorithm is not restated here.
#[verifier::external_body]
fn url_parse(input: &str) -> (res: Option<WebUrl>)
    ensures
        opt_url_view(res) == spec_url_parse(input@),
{
    let u = Url::parse(input).ok()?;
    Some(WebUrl {
        href: u.as_str().to_string(),
        host: u.host_str().map(|h| h.to_string()),
        path: u.path().to_string(),
        query: u.query().map(|q| q.to_string()),
        fragment: u.fragment().map(|f| f.to_string()),
        raw: u,
    })
}

/// Calls `url::Url::join` on the URL that `base` holds. The contract only
/// names the result, as a function of the base URL and the input.
#[verifier::external_body]
fn url_join(base: &WebUrl, input: &str) -> (res: Option<WebUrl>)
    ensures
        opt_url_view(res) == spec_url_join(base@, input@),
{
    let u = base.raw.join(input).ok()?;
    Some(WebUrl {
        href: u.as_str().to_string(),
        host: u.host_str().map(|h| h.to_string()),
        path: u.path().to_string(),
        query: u.query().map(|q| q.to_string()),
        fragment: u.fragment().map(|f| f.to_string()),
        raw: u,
    })
}

/// Calls `<url::Url as Clone>::clone`; nothing is stated of the copy, whose
/// components the caller copies itself.
#[verifier::external_body]
fn url_copy(u: &Url) -> Url {
    u.clone()
}

impl WebUrl {
    /// Parses an absolute URL.
    pub fn parse(input: &str) -> (res: Option<WebUrl>)
        ensures
            opt_url_view(res) == spec_url_parse(input@),
    {
        url_parse(input)
    }

    /// Resolves `input` against this URL.
    pub fn join(&self, input: &str) -> (res: Option<WebUrl>)
        ensures
            opt_url_view(res) == spec_url_join(self@, input@),
    {
        url_join(self, input)
    }

    /// The serialization of the URL.
    pub fn as_str(&self) -> (r: &str)
        ensures
            r@ == self@.href,
    {
        self.href.as_str()
    }

    pub fn host_str(&self) -> (r: &Option<String>)
        ensures
            opt_view(*r) == self@.host,
    {
        &self.host
    }

    pub fn path(&self) -> (r: &str)
        ensures
            r@ == self@.path,
    {
        self.path.as_str()
    }

    pub fn query(&self) -> (r: &Option<String>)
        ensures
            opt_view(*r) == self@.query,
    {
        &self.query
    }

    pub fn fragment(&self) -> (r: &Option<String>)
        ensures
            opt_view(*r) == self@.fragment,
    {
        &self.fragment
    }

    /// A copy of this URL.
    pub fn duplicate(&self) -> (r: WebUrl)
        ensures
            r@ == self@,
    {
        WebUrl {
            raw: url_copy(&self.raw),
            href: self.href.clone(),
            host: clone_opt_string(&self.host),
            path: self.path.clone(),
            query: clone_opt_string(&self.query),
            fragment: clone_opt_string(&self.fragment),
        }
    }

    /// URLs compare like their serializations.
    pub fn same_as(&self, other: &WebUrl) -> (r: bool)
        ensures
            r == (self@.href == other@.href),
    {
        str_eq(self.href.as_str(), other.href.as_str())
    }

    /// Both URLs report the same host (or both none).
    pub fn same_host(&self, other: &WebUrl) -> (r: bool)
        ensures
            r == (self@.host == other@.host),
    {
        opt_str_eq(&self.host, &other.host)
    }
}

} // verus!
