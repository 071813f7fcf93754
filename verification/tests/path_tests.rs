use frontlane_static::assets::{asset_info_from_head, asset_local_path};
use frontlane_static::local_path::{sanitize_filename, url_to_local_path};
use frontlane_static::url_model::WebUrl;

fn url(s: &str) -> WebUrl {
    WebUrl::parse(s).unwrap()
}

#[test]
fn sanitize_keeps_safe_characters_only() {
    assert_eq!(sanitize_filename("a b/c?d=é.png-x"), "a_b_c_d__.png-x");
    assert_eq!(sanitize_filename(""), "");
    assert_eq!(sanitize_filename(&sanitize_filename("x y")), "x_y");
}

#[test]
fn parse_normalizes_serialization() {
    assert_eq!(url("https://Example.com").as_str(), "https://example.com/");
    assert!(WebUrl::parse("not a url").is_none());
}

#[test]
fn local_path_query_folded_into_asset_names() {
    let base = url("https://example.com");
    let u = url("https://example.com/css/style.css?v=1.2");
    assert_eq!(url_to_local_path(&u, &base, "out", false, None).unwrap(), "out/css/style_v_1.2.css");
}

#[test]
fn local_path_query_left_out_of_pages() {
    let base = url("https://example.com");
    let u = url("https://example.com/list.html?page=2");
    assert_eq!(url_to_local_path(&u, &base, "out", false, None).unwrap(), "out/list.html");
}

#[test]
fn local_path_query_kept_for_directories() {
    let base = url("https://example.com");
    let d = url("https://example.com/blog/?p=3");
    assert_eq!(url_to_local_path(&d, &base, "out", false, None).unwrap(), "out/blog/index_p_3.html");
    let r = url("https://example.com/?page=2");
    assert_eq!(url_to_local_path(&r, &base, "out", false, None).unwrap(), "out/index_page_2.html");
    let v = url("https://example.com/?v=1.2");
    assert_eq!(url_to_local_path(&v, &base, "out", false, None).unwrap(), "out/index_v_1.html");
}

#[test]
fn local_path_subdomains_and_other_hosts() {
    let base = url("https://example.com");
    let sub = url("https://cdn.example.com/a.js");
    assert_eq!(url_to_local_path(&sub, &base, "out", false, None).unwrap(), "out/a.js");
    let other = url("https://notexample.com/a.js");
    assert!(url_to_local_path(&other, &base, "out", false, None).is_none());
}

#[test]
fn local_path_replace_special_sanitizes_segments() {
    let base = url("https://example.com");
    let u = url("https://example.com/my%20dir/file%20name.png");
    assert_eq!(
        url_to_local_path(&u, &base, "out", true, None).unwrap(),
        "out/my_20dir/file_20name.png"
    );
    let d = url("https://example.com/a%20b/c/");
    assert_eq!(url_to_local_path(&d, &base, "out", true, None).unwrap(), "out/a_20b/c/index.html");
}

#[test]
fn local_path_forced_extension() {
    let base = url("https://example.com");
    let u = url("https://example.com/api/image");
    assert_eq!(url_to_local_path(&u, &base, "out", false, Some("png")).unwrap(), "out/api/image.png");
    let d = url("https://example.com/feed/");
    assert_eq!(url_to_local_path(&d, &base, "out", false, Some("xml")).unwrap(), "out/feed/index.xml");
}

#[test]
fn local_path_dot_files_and_trailing_dots() {
    let base = url("https://example.com");
    let hidden = url("https://example.com/.well-known/x.txt");
    assert_eq!(url_to_local_path(&hidden, &base, "out", false, None).unwrap(), "out/.well-known/x.txt");
    let dotted = url("https://example.com/archive.tar.gz");
    assert_eq!(url_to_local_path(&dotted, &base, "out/", false, None).unwrap(), "out/archive.tar.gz");
}

#[test]
fn asset_extension_only_guessed_without_dot() {
    let base = url("https://example.com");
    let with_dot = url("https://example.com/img/logo.svg");
    assert_eq!(
        asset_local_path(&with_dot, &base, "out", false, Some("png")).unwrap(),
        "out/img/logo.svg"
    );
    let without = url("https://example.com/img/logo");
    assert_eq!(
        asset_local_path(&without, &base, "out", false, Some("png")).unwrap(),
        "out/img/logo.png"
    );
}

#[test]
fn asset_info_reads_head_headers() {
    let info = asset_info_from_head(Some(1234), Some("image/png"), Some("bytes"));
    assert_eq!(info.len, 1234);
    assert_eq!(info.ext.as_deref(), Some("png"));
    assert!(info.supports_ranges);
    let none = asset_info_from_head(None, Some("application/x-unknown-thing"), Some("none"));
    assert_eq!(none.len, 0);
    assert_eq!(none.ext, None);
    assert!(!none.supports_ranges);
}

#[test]
fn local_path_stays_below_output_dir() {
    let base = url("https://example.com");
    let u = url("https://example.com/a/b/../../../c/./d.png");
    let p = url_to_local_path(&u, &base, "backup", false, None).unwrap();
    assert_eq!(p, "backup/c/d.png");
    assert!(!p.split('/').any(|c| c == ".."));
}

#[test]
fn local_path_reads_only_path_and_query() {
    let base = url("https://example.com");
    let a = url("http://cdn.example.com:8080/a.png#x");
    let b = url("https://example.com/a.png");
    let pa = url_to_local_path(&a, &base, "o", false, None);
    let pb = url_to_local_path(&b, &base, "o", false, None);
    assert_eq!(pa, Some("o/a.png".to_string()));
    assert_eq!(pa, pb);
}
