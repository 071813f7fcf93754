use frontlane_static::asset_map::AssetPaths;
use frontlane_static::html_links::rewrite_html_links;
use frontlane_static::local_path::url_to_local_path;
use frontlane_static::url_model::WebUrl;

fn rewrite(html: &str) -> String {
    let page_url = WebUrl::parse("https://example.com/index.html").unwrap();
    let base_url = WebUrl::parse("https://example.com").unwrap();
    let output_dir = "backup";
    let asset_paths = AssetPaths::new();
    rewrite_html_links(html, &page_url, &base_url, output_dir, false, &asset_paths)
}

#[test]
fn test_rewrite_html_links_unquoted() {
    let html = r#"<a href=/about>About</a> <img src=/logo.png>"#;
    assert_eq!(
        rewrite(html),
        r#"<a href="about/index.html">About</a> <img src="logo.png">"#
    );
}

#[test]
fn test_rewrite_html_links_quoted() {
    let html = r#"<a href="/about/">About</a> <a href="https://example.com/contact.html">Contact</a>"#;
    assert_eq!(
        rewrite(html),
        r#"<a href="about/index.html">About</a> <a href="contact.html">Contact</a>"#
    );
}

#[test]
fn test_rewrite_html_links_fragments() {
    let html = r#"<a href="/about/#team">About Team</a> <a href="?sort=desc">Sort</a>"#;
    assert_eq!(
        rewrite(html),
        r#"<a href="about/index.html#team">About Team</a> <a href="index.html">Sort</a>"#
    );
}

#[test]
fn test_url_to_local_path() {
    let base_url = WebUrl::parse("https://example.com").unwrap();
    let output_dir = "backup";

    let url1 = WebUrl::parse("https://example.com/").unwrap();
    assert_eq!(
        url_to_local_path(&url1, &base_url, output_dir, false, None).unwrap(),
        "backup/index.html"
    );

    let url2 = WebUrl::parse("https://example.com/about").unwrap();
    assert_eq!(
        url_to_local_path(&url2, &base_url, output_dir, false, None).unwrap(),
        "backup/about/index.html"
    );

    let url3 = WebUrl::parse("https://example.com/about/").unwrap();
    assert_eq!(
        url_to_local_path(&url3, &base_url, output_dir, false, None).unwrap(),
        "backup/about/index.html"
    );

    let url4 = WebUrl::parse("https://example.com/image.png").unwrap();
    assert_eq!(
        url_to_local_path(&url4, &base_url, output_dir, false, None).unwrap(),
        "backup/image.png"
    );
}

#[test]
fn test_rewrite_html_links_srcset() {
    let html = r#"<img srcset="/img/small.jpg 320w, /img/large.jpg 800w">"#;
    assert_eq!(
        rewrite(html),
        r#"<img srcset="img/small.jpg 320w, img/large.jpg 800w">"#
    );
}
