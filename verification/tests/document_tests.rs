use frontlane_static::base_tag::{handle_base_tag, strip_base_tags};
use frontlane_static::html_doc::{apply_css_selector, extract_assets, extract_page_metadata, PageContent};
use frontlane_static::page::{plan_css_assets, plan_page};
use frontlane_static::url_model::WebUrl;

#[test]
fn test_extract_metadata_logic() {
    let html = r#"<html><head><title>Test Title</title><meta name="description" content="A test description"><meta name="keywords" content="test, rust, spider"></head><body></body></html>"#;
    let meta = extract_page_metadata(html);
    assert_eq!(meta.title, "Test Title");
    assert_eq!(meta.description, "A test description");
    assert_eq!(meta.keywords, "test, rust, spider");
}

#[test]
fn test_css_selector_logic() {
    let html = r#"<html><body><div class="unwanted">Bad</div><main class="content">Good stuff</main></body></html>"#;
    match apply_css_selector(html, "main.content") {
        PageContent::Replace(extracted) => {
            assert_eq!(extracted, r#"<main class="content">Good stuff</main>"#)
        }
        _ => panic!("the selector should select the main element"),
    }
}

#[test]
fn test_markdown_conversion() {
    let html = r#"<h1>Hello World</h1><p>This is a <strong>test</strong> with a <a href="https://example.com">link</a>.</p><ul><li>Item 1</li><li>Item 2</li></ul>"#;
    let md = html2md::parse_html(html);
    assert!(md.contains("Hello World"));
    assert!(md.contains("**test**"));
    assert!(md.contains("[link](https://example.com)"));
    assert!(md.contains("* Item 1"));
}

#[test]
fn metadata_names_ignore_ascii_case_and_last_one_wins() {
    let html = r#"<html><head><meta name="DESCRIPTION" content="first"><meta name="Description" content="second"><meta name="author" content="x"></head></html>"#;
    let meta = extract_page_metadata(html);
    assert_eq!(meta.title, "");
    assert_eq!(meta.description, "second");
    assert_eq!(meta.keywords, "");
}

#[test]
fn css_selector_without_match_skips_page() {
    let html = r#"<html><body><p>x</p></body></html>"#;
    assert!(matches!(apply_css_selector(html, "main.content"), PageContent::Skip));
}

#[test]
fn invalid_css_selector_keeps_page() {
    let html = r#"<html><body><p>x</p></body></html>"#;
    assert!(matches!(apply_css_selector(html, "[[["), PageContent::Keep));
}

fn hrefs(v: &[WebUrl]) -> Vec<String> {
    v.iter().map(|u| u.as_str().to_string()).collect()
}

#[test]
fn extract_assets_in_selector_order_then_srcset() {
    let page = WebUrl::parse("https://example.com/dir/page.html").unwrap();
    let html = r#"<html><head><link rel="stylesheet" href="style.css"><script src="/app.js"></script></head>
<body><img src="a.png" srcset="b.png 2x, , c.png 3x"><video poster="p.jpg"></video></body></html>"#;
    let assets = extract_assets(html, &page);
    assert_eq!(
        hrefs(&assets),
        vec![
            "https://example.com/dir/a.png",
            "https://example.com/app.js",
            "https://example.com/dir/style.css",
            "https://example.com/dir/p.jpg",
            "https://example.com/dir/b.png",
            "https://example.com/dir/c.png",
        ]
    );
}

#[test]
fn base_tag_changes_resolution_and_is_removed() {
    let page = WebUrl::parse("https://example.com/a/page.html").unwrap();
    let html = r#"<head><BASE href="/root/"></head><img src="x.png">"#;
    let (clean, base) = handle_base_tag(html, &page);
    assert_eq!(clean, r#"<head></head><img src="x.png">"#);
    assert_eq!(base.as_str(), "https://example.com/root/");
}

#[test]
fn page_without_base_tag_is_unchanged() {
    let page = WebUrl::parse("https://example.com/a/page.html").unwrap();
    let html = r#"<head></head><img src="x.png">"#;
    let (clean, base) = handle_base_tag(html, &page);
    assert_eq!(clean, html);
    assert_eq!(base.as_str(), "https://example.com/a/page.html");
}

#[test]
fn strip_base_tags_needs_href_value() {
    assert_eq!(strip_base_tags("a<base href=x>b"), "ab");
    assert_eq!(strip_base_tags("a<base target=_top>b"), "a<base target=_top>b");
    assert_eq!(strip_base_tags("a<basefont href=x>b"), "a<basefont href=x>b");
    assert_eq!(strip_base_tags("a<base href=\"\">b"), "a<base href=\"\">b");
    assert_eq!(strip_base_tags("<base href=x"), "<base href=x");
}

#[test]
fn plan_page_dedups_and_keeps_site_assets() {
    let base = WebUrl::parse("https://example.com").unwrap();
    let page = WebUrl::parse("https://example.com/index.html").unwrap();
    let html = r#"<img src="/a.png"><img src="/a.png"><img src="https://cdn.other.com/b.png"><script src="/c.js"></script>"#;
    let plan = plan_page(html, &page, &base, "backup", false).unwrap();
    assert_eq!(plan.local_path, "backup/index.html");
    assert_eq!(
        hrefs(&plan.assets),
        vec!["https://example.com/a.png", "https://example.com/c.js"]
    );
}

#[test]
fn plan_page_for_other_host_is_none() {
    let base = WebUrl::parse("https://example.com").unwrap();
    let page = WebUrl::parse("https://other.org/index.html").unwrap();
    assert!(plan_page("<p>x</p>", &page, &base, "backup", false).is_none());
}

#[test]
fn plan_css_assets_skips_data_and_other_hosts() {
    let base = WebUrl::parse("https://example.com").unwrap();
    let css_url = WebUrl::parse("https://example.com/css/site.css").unwrap();
    let css = "a{background:url('../img/a.png')} b{background:url(data:image/png;base64,xx)} c{src:url(\"https://fonts.other.com/f.woff\")} d{x:url(../img/a.png)}";
    let list = plan_css_assets(css, &css_url, &base);
    assert_eq!(hrefs(&list), vec!["https://example.com/img/a.png"]);
}
