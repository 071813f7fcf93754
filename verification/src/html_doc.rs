//! What the parsed HTML document of a page gives: asset URLs, the `<base>`
//! element, metadata and selected fragments. Parsing and CSS selector
//! matching are `scraper`'s.
use vstd::prelude::*;
use crate::text::{opt_view, chars_of, string_from_chars, push_chars, subvec, seq_or_empty, is_ws, is_ws_char};
use crate::url_model::{WebUrl, UrlView, spec_url_join, url_views};
use crate::local_path::{split_on};
use crate::words::{trim_ws, first_token, trim_chars, token_len_exec};
use crate::html_scan::{keyword_at, keyword_at_exec, skip_ws, skip_ws_exec, is_quote};
use crate::html_links::ascii_ci_word;

verus! {

pub open spec fn opt_attr_views(r: Option<Vec<Option<String>>>) -> Option<Seq<Option<Seq<char>>>> {
    match r {
        Some(v) => Some(v@.map_values(|o: Option<String>| opt_view(o))),
        None => None,
    }
}

pub open spec fn opt_string_views(r: Option<Vec<String>>) -> Option<Seq<Seq<char>>> {
    match r {
        Some(v) => Some(v@.map_values(|s: String| s@)),
        None => None,
    }
}

/// For each element of the parsed document that the CSS selector selects,
/// in document order, the value of the named attribute; `None` when the
/// selector does not parse.
pub uninterp spec fn spec_select_attr(document: Seq<char>, selector: Seq<char>, attr: Seq<char>) -> Option<Seq<Option<Seq<char>>>>;

/// For each selected element, its inner HTML; `None` when the selector
/// does not parse.
pub uninterp spec fn spec_select_inner_html(document: Seq<char>, selector: Seq<char>) -> Option<Seq<Seq<char>>>;

/// For each selected element, its HTML; `None` when the selector does not
/// parse.
pub uninterp spec fn spec_select_outer_html(document: Seq<char>, selector: Seq<char>) -> Option<Seq<Seq<char>>>;

/// Calls `scraper::Selector::parse`, `scraper::Html::parse_document`,
/// `Html::select` and `Element::attr`: one attribute value per selected
/// element. The values are only named.
#[verifier::external_body]
pub(crate) fn select_attr(document: &str, selector: &str, attr: &str) -> (r: Option<Vec<Option<String>>>)
    ensures
        opt_attr_views(r) == spec_select_attr(document@, selector@, attr@),
{
    let sel = scraper::Selector::parse(selector).ok()?;
    let doc = scraper::Html::parse_document(document);
    let mut out = Vec::new();
    for e in doc.select(&sel) {
        out.push(e.value().attr(attr).map(|v| v.to_string()));
    }
    Some(out)
}

/// Calls `scraper` as `select_attr` does, with `ElementRef::inner_html`.
#[verifier::external_body]
fn select_inner_html(document: &str, selector: &str) -> (r: Option<Vec<String>>)
    ensures
        opt_string_views(r) == spec_select_inner_html(document@, selector@),
{
    let sel = scraper::Selector::parse(selector).ok()?;
    let doc = scraper::Html::parse_document(document);
    let mut out = Vec::new();
    for e in doc.select(&sel) {
        out.push(e.inner_html());
    }
    Some(out)
}

/// Calls `scraper` as `select_attr` does, with `ElementRef::html`.
#[verifier::external_body]
fn select_outer_html(document: &str, selector: &str) -> (r: Option<Vec<String>>)
    ensures
        opt_string_views(r) == spec_select_outer_html(document@, selector@),
{
    let sel = scraper::Selector::parse(selector).ok()?;
    let doc = scraper::Html::parse_document(document);
    let mut out = Vec::new();
    for e in doc.select(&sel) {
        out.push(e.html());
    }
    Some(out)
}

/// The selectors and attributes whose values name assets.
pub open spec fn asset_selectors() -> Seq<(Seq<char>, Seq<char>)> {
    seq![
        ("img[src]"@, "src"@),
        ("script[src]"@, "src"@),
        ("link[href]"@, "href"@),
        ("video[src]"@, "src"@),
        ("video[poster]"@, "poster"@),
        ("audio[src]"@, "src"@),
        ("source[src]"@, "src"@),
        ("embed[src]"@, "src"@),
        ("iframe[src]"@, "src"@),
        ("frame[src]"@, "src"@),
        ("object[data]"@, "data"@),
        ("track[src]"@, "src"@),
        ("form[action]"@, "action"@),
        ("meta[property='og:image'][content]"@, "content"@),
        ("meta[name='twitter:image'][content]"@, "content"@),
        ("link[rel='icon'][href]"@, "href"@),
        ("link[rel='shortcut icon'][href]"@, "href"@),
        ("link[rel='apple-touch-icon'][href]"@, "href"@),
    ]
}

/// The selectors whose `srcset` values list assets.
pub open spec fn srcset_selectors() -> Seq<Seq<char>> {
    seq!["img[srcset]"@, "source[srcset]"@]
}

fn asset_selector(k: usize) -> (r: (&'static str, &'static str))
    requires
        k < 18,
    ensures
        (r.0@, r.1@) == asset_selectors()[k as int],
{
    if k == 0 { ("img[src]", "src") }
    else if k == 1 { ("script[src]", "src") }
    else if k == 2 { ("link[href]", "href") }
    else if k == 3 { ("video[src]", "src") }
    else if k == 4 { ("video[poster]", "poster") }
    else if k == 5 { ("audio[src]", "src") }
    else if k == 6 { ("source[src]", "src") }
    else if k == 7 { ("embed[src]", "src") }
    else if k == 8 { ("iframe[src]", "src") }
    else if k == 9 { ("frame[src]", "src") }
    else if k == 10 { ("object[data]", "data") }
    else if k == 11 { ("track[src]", "src") }
    else if k == 12 { ("form[action]", "action") }
    else if k == 13 { ("meta[property='og:image'][content]", "content") }
    else if k == 14 { ("meta[name='twitter:image'][content]", "content") }
    else if k == 15 { ("link[rel='icon'][href]", "href") }
    else if k == 16 { ("link[rel='shortcut icon'][href]", "href") }
    else { ("link[rel='apple-touch-icon'][href]", "href") }
}

/// The URLs that attribute values resolve to against `page`, in order,
/// leaving out absent values and values that do not resolve.
pub open spec fn joined_values(page: UrlView, vals: Seq<Option<Seq<char>>>) -> Seq<UrlView>
    decreases vals.len(),
{
    if vals.len() == 0 {
        Seq::empty()
    } else {
        let prev = joined_values(page, vals.drop_last());
        match vals.last() {
            Some(v) => match spec_url_join(page, v) {
                Some(u) => prev.push(u),
                None => prev,
            },
            None => prev,
        }
    }
}

/// The assets named by the first `k` selector and attribute pairs.
pub open spec fn attr_assets(html: Seq<char>, page: UrlView, k: int) -> Seq<UrlView>
    decreases k,
{
    if k <= 0 {
        Seq::empty()
    } else {
        let sel = asset_selectors()[k - 1];
        attr_assets(html, page, k - 1) + match spec_select_attr(html, sel.0, sel.1) {
            Some(vals) => joined_values(page, vals),
            None => Seq::empty(),
        }
    }
}

/// The URLs of the candidates of a `srcset` value, split at commas: the
/// first white-space separated word of each trimmed candidate, resolved
/// against `page`, leaving out empty candidates and words that do not
/// resolve.
pub open spec fn srcset_candidates(page: UrlView, parts: Seq<Seq<char>>) -> Seq<UrlView>
    decreases parts.len(),
{
    if parts.len() == 0 {
        Seq::empty()
    } else {
        let prev = srcset_candidates(page, parts.drop_last());
        let word = first_token(trim_ws(parts.last()));
        if word.len() > 0 && spec_url_join(page, word) is Some {
            prev.push(spec_url_join(page, word).unwrap())
        } else {
            prev
        }
    }
}

/// The URLs listed by a sequence of `srcset` values.
pub open spec fn srcset_values_assets(page: UrlView, vals: Seq<Option<Seq<char>>>) -> Seq<UrlView>
    decreases vals.len(),
{
    if vals.len() == 0 {
        Seq::empty()
    } else {
        let prev = srcset_values_assets(page, vals.drop_last());
        match vals.last() {
            Some(v) => prev + srcset_candidates(page, split_on(v, ',')),
            None => prev,
        }
    }
}

/// The assets listed by the `srcset` attributes of the first `k` selectors.
pub open spec fn srcset_assets(html: Seq<char>, page: UrlView, k: int) -> Seq<UrlView>
    decreases k,
{
    if k <= 0 {
        Seq::empty()
    } else {
        srcset_assets(html, page, k - 1) + match spec_select_attr(html, srcset_selectors()[k - 1], "srcset"@) {
            Some(vals) => srcset_values_assets(page, vals),
            None => Seq::empty(),
        }
    }
}

/// All asset URLs of a page: first those named by attributes, selector by
/// selector, then those listed by `srcset` attributes.
pub open spec fn page_assets(html: Seq<char>, page: UrlView) -> Seq<UrlView> {
    attr_assets(html, page, 18) + srcset_assets(html, page, 2)
}

fn push_url(assets: &mut Vec<WebUrl>, u: WebUrl)
    ensures
        url_views(final(assets)@) == url_views(old(assets)@).push(u@),
{
    assets.push(u);
    assert(url_views(assets@) =~= url_views(old(assets)@).push(u@));
}

/// Appends the URLs that `vals` resolve to.
fn push_joined(assets: &mut Vec<WebUrl>, page: &WebUrl, vals: &Vec<Option<String>>)
    ensures
        url_views(final(assets)@) == url_views(old(assets)@) + joined_values(page@, vals@.map_values(|o: Option<String>| opt_view(o))),
{
    let ghost vv = vals@.map_values(|o: Option<String>| opt_view(o));
    let mut i: usize = 0;
    assert(vv.take(0) =~= Seq::<Option<Seq<char>>>::empty());
    assert(url_views(assets@) =~= url_views(old(assets)@) + Seq::<UrlView>::empty());
    while i < vals.len()
        invariant
            i <= vals.len(),
            vv == vals@.map_values(|o: Option<String>| opt_view(o)),
            url_views(assets@) == url_views(old(assets)@) + joined_values(page@, vv.take(i as int)),
        decreases vals.len() - i,
    {
        assert(vv.take(i + 1).drop_last() =~= vv.take(i as int));
        assert(vv.take(i + 1).last() == opt_view(vals@[i as int]));
        match &vals[i] {
            Some(v) => match page.join(v.as_str()) {
                Some(u) => {
                    push_url(assets, u);
                },
                None => {},
            },
            None => {},
        }
        i = i + 1;
    }
    assert(vv.take(i as int) =~= vv);
}

/// Appends the URLs that the candidates of a `srcset` value resolve to.
fn push_srcset_candidates(assets: &mut Vec<WebUrl>, page: &WebUrl, value: &str)
    ensures
        url_views(final(assets)@) == url_views(old(assets)@) + srcset_candidates(page@, split_on(value@, ',')),
{
    let v = chars_of(value);
    let mut cur: Vec<char> = Vec::new();
    let mut j: usize = 0;
    assert(v@.take(0) =~= Seq::<char>::empty());
    assert(url_views(assets@) =~= url_views(old(assets)@) + Seq::<UrlView>::empty());
    while j < v.len()
        invariant
            j <= v.len(),
            v@ == value@,
            split_on(v@.take(j as int), ',').len() >= 1,
            cur@ == split_on(v@.take(j as int), ',').last(),
            url_views(assets@) == url_views(old(assets)@) + srcset_candidates(page@, split_on(v@.take(j as int), ',').drop_last()),
        decreases v.len() - j,
    {
        let c = v[j];
        let ghost t = v@.take(j + 1);
        let ghost prev = split_on(v@.take(j as int), ',');
        assert(t.drop_last() =~= v@.take(j as int));
        if c == ',' {
            assert(split_on(t, ',') == prev.push(Seq::<char>::empty()));
            assert(split_on(t, ',').drop_last() =~= prev);
            assert(prev.drop_last().push(prev.last()) =~= prev);
            push_first_word(assets, page, &cur);
            cur = Vec::new();
        } else {
            assert(split_on(t, ',') == prev.update(prev.len() - 1, prev.last().push(c)));
            assert(split_on(t, ',').drop_last() =~= prev.drop_last());
            cur.push(c);
        }
        j = j + 1;
    }
    assert(v@.take(j as int) =~= v@);
    push_first_word(assets, page, &cur);
    assert(split_on(v@, ',').drop_last().push(split_on(v@, ',').last()) =~= split_on(v@, ','));
}

/// Appends the URL that the first word of a trimmed candidate resolves to.
fn push_first_word(assets: &mut Vec<WebUrl>, page: &WebUrl, part: &Vec<char>)
    ensures
        ({
            let word = first_token(trim_ws(part@));
            url_views(final(assets)@) == if word.len() > 0 && spec_url_join(page@, word) is Some {
                url_views(old(assets)@).push(spec_url_join(page@, word).unwrap())
            } else {
                url_views(old(assets)@)
            }
        }),
{
    let tr = trim_chars(part);
    let n = token_len_exec(&tr);
    let word = subvec(&tr, 0, n);
    assert(word@ =~= first_token(trim_ws(part@)));
    if n > 0 {
        let ws = string_from_chars(&word);
        match page.join(ws.as_str()) {
            Some(u) => push_url(assets, u),
            None => {},
        }
    }
}

/// The asset URLs of a page: the values of `src`, `href`, `poster`,
/// `data`, `action` and `content` attributes of the elements that can name
/// assets, and the candidates of `srcset` attributes, each resolved against
/// the page's URL; values that do not resolve are left out.
pub fn extract_assets(html_content: &str, page_url: &WebUrl) -> (res: Vec<WebUrl>)
    ensures
        url_views(res@) == page_assets(html_content@, page_url@),
{
    let mut assets: Vec<WebUrl> = Vec::new();
    let mut k: usize = 0;
    assert(url_views(assets@) =~= attr_assets(html_content@, page_url@, 0));
    while k < 18
        invariant
            k <= 18,
            url_views(assets@) == attr_assets(html_content@, page_url@, k as int),
        decreases 18 - k,
    {
        let (sel, attr) = asset_selector(k);
        match select_attr(html_content, sel, attr) {
            Some(vals) => push_joined(&mut assets, page_url, &vals),
            None => {
                assert(url_views(assets@) =~= url_views(assets@) + Seq::<UrlView>::empty());
            },
        }
        k = k + 1;
    }
    let mut k: usize = 0;
    assert(url_views(assets@) =~= attr_assets(html_content@, page_url@, 18) + srcset_assets(html_content@, page_url@, 0));
    while k < 2
        invariant
            k <= 2,
            url_views(assets@) == attr_assets(html_content@, page_url@, 18) + srcset_assets(html_content@, page_url@, k as int),
        decreases 2 - k,
    {
        let sel = if k == 0 { "img[srcset]" } else { "source[srcset]" };
        assert(sel@ == srcset_selectors()[k as int]);
        match select_attr(html_content, sel, "srcset") {
            Some(vals) => {
                let ghost vv = vals@.map_values(|o: Option<String>| opt_view(o));
                let ghost start = url_views(assets@);
                let mut i: usize = 0;
                assert(vv.take(0) =~= Seq::<Option<Seq<char>>>::empty());
                assert(start =~= start + Seq::<UrlView>::empty());
                while i < vals.len()
                    invariant
                        i <= vals.len(),
                        vv == vals@.map_values(|o: Option<String>| opt_view(o)),
                        url_views(assets@) == start + srcset_values_assets(page_url@, vv.take(i as int)),
                    decreases vals.len() - i,
                {
                    assert(vv.take(i + 1).drop_last() =~= vv.take(i as int));
                    assert(vv.take(i + 1).last() == opt_view(vals@[i as int]));
                    match &vals[i] {
                        Some(v) => push_srcset_candidates(&mut assets, page_url, v.as_str()),
                        None => {},
                    }
                    i = i + 1;
                }
                assert(vv.take(i as int) =~= vv);
            },
            None => {
                assert(url_views(assets@) =~= url_views(assets@) + Seq::<UrlView>::empty());
            },
        }
        k = k + 1;
    }
    assets
}

pub open spec fn description_word() -> Seq<char> {
    seq!['d', 'e', 's', 'c', 'r', 'i', 'p', 't', 'i', 'o', 'n']
}

pub open spec fn keywords_word() -> Seq<char> {
    seq!['k', 'e', 'y', 'w', 'o', 'r', 'd', 's']
}

/// The description and keywords that the first `n` `<meta>` elements give:
/// the `content` of the last one whose `name` is `description` (resp.
/// `keywords`), ignoring ASCII case; empty when none is.
pub open spec fn meta_fold(names: Seq<Option<Seq<char>>>, contents: Seq<Option<Seq<char>>>, n: int) -> (Seq<char>, Seq<char>)
    decreases n,
{
    if n <= 0 {
        (Seq::empty(), Seq::empty())
    } else {
        let prev = meta_fold(names, contents, n - 1);
        match names[n - 1] {
            Some(nm) => if ascii_ci_word(nm, description_word()) {
                (seq_or_empty(contents[n - 1]), prev.1)
            } else if ascii_ci_word(nm, keywords_word()) {
                (prev.0, seq_or_empty(contents[n - 1]))
            } else {
                prev
            },
            None => prev,
        }
    }
}

/// The inner HTML of the first `<title>` element, or empty.
pub open spec fn title_of(html: Seq<char>) -> Seq<char> {
    match spec_select_inner_html(html, "title"@) {
        Some(v) => if v.len() > 0 { v[0] } else { Seq::empty() },
        None => Seq::empty(),
    }
}

/// The description and keywords of a page, from its `<meta>` elements.
pub open spec fn meta_of(html: Seq<char>) -> (Seq<char>, Seq<char>) {
    match (spec_select_attr(html, "meta"@, "name"@), spec_select_attr(html, "meta"@, "content"@)) {
        (Some(n), Some(c)) => meta_fold(n, c, if n.len() <= c.len() { n.len() as int } else { c.len() as int }),
        _ => (Seq::empty(), Seq::empty()),
    }
}

/// A page's title, description and keywords.
pub struct PageMetadata {
    pub title: String,
    pub description: String,
    pub keywords: String,
}

fn word_vec(cs: &[char]) -> (v: Vec<char>)
    ensures
        v@ == cs@,
{
    let mut v: Vec<char> = Vec::new();
    let mut i: usize = 0;
    while i < cs.len()
        invariant
            i <= cs.len(),
            v@ == cs@.take(i as int),
        decreases cs.len() - i,
    {
        v.push(cs[i]);
        assert(cs@.take(i + 1) =~= cs@.take(i as int).push(cs@[i as int]));
        i = i + 1;
    }
    assert(cs@.take(i as int) =~= cs@);
    v
}

fn opt_chars_or_empty(o: &Option<String>) -> (r: String)
    ensures
        r@ == seq_or_empty(opt_view(*o)),
{
    match o {
        Some(s) => s.clone(),
        None => String::new(),
    }
}

/// The title (inner HTML of the first `<title>`), and the contents of the
/// last `<meta>` elements named `description` and `keywords`.
pub fn extract_page_metadata(html: &str) -> (res: PageMetadata)
    ensures
        res.title@ == title_of(html@),
        res.description@ == meta_of(html@).0,
        res.keywords@ == meta_of(html@).1,
{
    let title = match select_inner_html(html, "title") {
        Some(v) => if v.len() > 0 { v[0].clone() } else { String::new() },
        None => String::new(),
    };
    let mut description = String::new();
    let mut keywords = String::new();
    let desc_w = word_vec(&['d', 'e', 's', 'c', 'r', 'i', 'p', 't', 'i', 'o', 'n']);
    let kw_w = word_vec(&['k', 'e', 'y', 'w', 'o', 'r', 'd', 's']);
    assert(desc_w@ =~= description_word());
    assert(kw_w@ =~= keywords_word());
    match (select_attr(html, "meta", "name"), select_attr(html, "meta", "content")) {
        (Some(names), Some(contents)) => {
            let n = if names.len() <= contents.len() { names.len() } else { contents.len() };
            let ghost nv = names@.map_values(|o: Option<String>| opt_view(o));
            let ghost cv = contents@.map_values(|o: Option<String>| opt_view(o));
            let mut i: usize = 0;
            while i < n
                invariant
                    i <= n <= names.len(),
                    n <= contents.len(),
                    nv == names@.map_values(|o: Option<String>| opt_view(o)),
                    cv == contents@.map_values(|o: Option<String>| opt_view(o)),
                    desc_w@ == description_word(),
                    kw_w@ == keywords_word(),
                    (description@, keywords@) == meta_fold(nv, cv, i as int),
                decreases n - i,
            {
                assert(nv[i as int] == opt_view(names@[i as int]));
                assert(cv[i as int] == opt_view(contents@[i as int]));
                match &names[i] {
                    Some(nm) => {
                        let nmv = chars_of(nm.as_str());
                        if crate::html_links::ascii_ci_word_exec(&nmv, &desc_w) {
                            description = opt_chars_or_empty(&contents[i]);
                        } else if crate::html_links::ascii_ci_word_exec(&nmv, &kw_w) {
                            keywords = opt_chars_or_empty(&contents[i]);
                        }
                    },
                    None => {},
                }
                i = i + 1;
            }
        },
        _ => {},
    }
    PageMetadata { title, description, keywords }
}

/// The concatenation of a list of strings.
pub open spec fn concat_all(v: Seq<Seq<char>>) -> Seq<char>
    decreases v.len(),
{
    if v.len() == 0 {
        Seq::empty()
    } else {
        concat_all(v.drop_last()) + v.last()
    }
}

/// What a CSS selector leaves of a page.
pub enum PageContent {
    /// The selector does not parse: the page stays as it is.
    Keep,
    /// The HTML of the selected elements, concatenated.
    Replace(String),
    /// The selector selects nothing (or only empty HTML): the page is skipped.
    Skip,
}

/// The HTML of the elements that a CSS selector selects, concatenated:
/// `Keep` when the selector does not parse, `Skip` when the result is empty.
pub fn apply_css_selector(html: &str, selector: &str) -> (res: PageContent)
    ensures
        match spec_select_outer_html(html@, selector@) {
            None => res is Keep,
            Some(v) => if concat_all(v).len() == 0 {
                res is Skip
            } else {
                res matches PageContent::Replace(s) && s@ == concat_all(v)
            },
        },
{
    match select_outer_html(html, selector) {
        None => PageContent::Keep,
        Some(parts) => {
            let ghost pv = parts@.map_values(|s: String| s@);
            let mut out: Vec<char> = Vec::new();
            let mut i: usize = 0;
            assert(pv.take(0) =~= Seq::<Seq<char>>::empty());
            while i < parts.len()
                invariant
                    i <= parts.len(),
                    pv == parts@.map_values(|s: String| s@),
                    out@ == concat_all(pv.take(i as int)),
                decreases parts.len() - i,
            {
                assert(pv.take(i + 1).drop_last() =~= pv.take(i as int));
                push_chars(&mut out, &chars_of(parts[i].as_str()));
                i = i + 1;
            }
            assert(pv.take(i as int) =~= pv);
            if out.len() == 0 {
                PageContent::Skip
            } else {
                PageContent::Replace(string_from_chars(&out))
            }
        },
    }
}

} // verus!
