use frontlane_static::asset_map::AssetPaths;
use frontlane_static::css_links::{extract_css_assets, rewrite_css_links};
use frontlane_static::html_links::rewrite_html_links;
use frontlane_static::url_model::WebUrl;

fn url(s: &str) -> WebUrl {
    WebUrl::parse(s).unwrap()
}

fn rewrite_at(page: &str, html: &str, assets: &AssetPaths) -> String {
    rewrite_html_links(html, &url(page), &url("https://example.com"), "backup", false, assets)
}

#[test]
fn special_and_external_links_are_kept_but_requoted() {
    let html = r#"<a href='mailto:a@b.c'>m</a><a HREF = "https://other.org/x">o</a><img src="data:image/png;base64,AA">"#;
    assert_eq!(
        rewrite_at("https://example.com/index.html", html, &AssetPaths::new()),
        r#"<a href="mailto:a@b.c">m</a><a HREF="https://other.org/x">o</a><img src="data:image/png;base64,AA">"#
    );
}

#[test]
fn links_from_nested_pages_climb_directories() {
    let html = r#"<a href="/about/">a</a><img src="../img/x.png">"#;
    assert_eq!(
        rewrite_at("https://example.com/blog/post/", html, &AssetPaths::new()),
        r#"<a href="../../about/index.html">a</a><img src="../img/x.png">"#
    );
}

#[test]
fn recorded_asset_paths_win() {
    let mut assets = AssetPaths::new();
    assets.insert(&url("https://example.com/api/pic"), "backup/api/pic.jpeg".to_string());
    let html = r#"<img src="/api/pic">"#;
    assert_eq!(
        rewrite_at("https://example.com/index.html", html, &assets),
        r#"<img src="api/pic.jpeg">"#
    );
}

#[test]
fn empty_relative_path_falls_back_to_file_name() {
    let mut assets = AssetPaths::new();
    assets.insert(&url("https://example.com/here"), "backup".to_string());
    let html = r#"<a href="/here">h</a>"#;
    assert_eq!(rewrite_at("https://example.com/index.html", html, &assets), r#"<a href="backup">h</a>"#);
}

#[test]
fn srcset_keeps_unresolved_candidates_and_first_descriptor() {
    let html = r#"<img srcset="/a.png 1x extra,https://other.org/b.png 2x, data:x 3x">"#;
    assert_eq!(
        rewrite_at("https://example.com/index.html", html, &AssetPaths::new()),
        r#"<img srcset="a.png 1x, https://other.org/b.png 2x,  data:x 3x">"#
    );
}

#[test]
fn long_s_matches_attribute_names() {
    let html = "<img \u{17f}rc=/a.png>";
    assert_eq!(
        rewrite_at("https://example.com/index.html", html, &AssetPaths::new()),
        "<img \u{17f}rc=\"a.png\">"
    );
}

#[test]
fn empty_quoted_value_is_read_bare() {
    let html = r#"<a href="">x</a>"#;
    assert_eq!(
        rewrite_at("https://example.com/index.html", html, &AssetPaths::new()),
        r#"<a href="%22%22/index.html">x</a>"#
    );
}

#[test]
fn page_outside_site_is_unchanged() {
    let html = r#"<a href="/x">x</a>"#;
    assert_eq!(rewrite_at("https://other.org/index.html", html, &AssetPaths::new()), html);
}

#[test]
fn css_links_rewritten_relative_to_stylesheet() {
    let css = "a{background:url(\"../img/a.png\")} b{background:url(data:x)} c{x:url(https://other.org/f.woff)}";
    let out = rewrite_css_links(
        css,
        &url("https://example.com/css/site.css"),
        &url("https://example.com"),
        "backup",
        false,
        &AssetPaths::new(),
    );
    assert_eq!(
        out,
        "a{background:url('../img/a.png')} b{background:url('data:x')} c{x:url('https://other.org/f.woff')}"
    );
}

#[test]
fn css_references_in_order() {
    let css = "url(a.png) url('') url(\"b.png\") url(c.png\"x) url(d.png)";
    let list = extract_css_assets(css, &url("https://example.com/s/x.css"));
    let hrefs: Vec<&str> = list.iter().map(|u| u.as_str()).collect();
    assert_eq!(
        hrefs,
        vec!["https://example.com/s/a.png", "https://example.com/s/b.png", "https://example.com/s/d.png"]
    );
}

#[test]
fn asset_map_read_after_write() {
    let mut m = AssetPaths::new();
    let a = url("https://example.com/a");
    let b = url("https://example.com/b");
    assert_eq!(m.get(&a), None);
    m.insert(&a, "x".to_string());
    m.insert(&b, "y".to_string());
    m.insert(&a, "z".to_string());
    assert_eq!(m.get(&a).as_deref(), Some("z"));
    assert_eq!(m.get(&b).as_deref(), Some("y"));
}
