use frontlane_static::crawl::{
    basic_auth_value, next_progress_length, output_dir_name, page_action, root_file_targets, sitemap_url_in_scope,
    PageAction,
};
use frontlane_static::download::{
    asset_download_action, check_final_size, chunk_request, chunk_response_ok, file_limit_reached, is_css_path,
    missing_part_tolerated, plan_chunks, AssetAction, ChunkStart, DownloadError, SkipReason,
};
use frontlane_static::url_model::WebUrl;

#[test]
fn chunks_single_range_for_small_or_unranged() {
    let v = plan_chunks(500, true, 10_000_000).ok().unwrap();
    assert_eq!(v.len(), 1);
    assert_eq!((v[0].start, v[0].end), (0, 499));
    let v = plan_chunks(2_000_000, false, 10_000_000).ok().unwrap();
    assert_eq!((v.len(), v[0].start, v[0].end), (1, 0, 1_999_999));
    let v = plan_chunks(0, false, 10).ok().unwrap();
    assert_eq!((v[0].start, v[0].end), (0, 0));
}

#[test]
fn chunks_four_ranges_cover_asset() {
    let v = plan_chunks(2_000_003, true, 10_000_000).ok().unwrap();
    let pairs: Vec<(u64, u64)> = v.iter().map(|c| (c.start, c.end)).collect();
    assert_eq!(
        pairs,
        vec![(0, 500_000), (500_000, 1_000_000), (1_000_000, 1_500_000), (1_500_000, 2_000_002)]
            .into_iter()
            .map(|(s, e)| (s, if e == 2_000_002 { e } else { e - 1 }))
            .collect::<Vec<_>>()
    );
}

#[test]
fn chunks_refused_above_max_size() {
    match plan_chunks(11, false, 10) {
        Err(DownloadError::TooLarge { len, max }) => assert_eq!((len, max), (11, 10)),
        _ => panic!("expected TooLarge"),
    }
}

#[test]
fn final_size_and_missing_parts() {
    assert!(check_final_size(5, 5, 10).is_ok());
    assert!(check_final_size(10, 5, 10).is_ok());
    assert!(matches!(check_final_size(4, 5, 10), Err(DownloadError::TooSmall)));
    match check_final_size(11, 0, 10) {
        Err(DownloadError::TooLarge { len, max }) => assert_eq!((len, max), (11, 10)),
        _ => panic!("expected TooLarge"),
    }
    assert!(matches!(check_final_size(8, 9, 5), Err(DownloadError::TooSmall)));
    assert!(missing_part_tolerated(1, 0));
    assert!(!missing_part_tolerated(4, 0));
    assert!(!missing_part_tolerated(1, 3));
}

#[test]
fn chunk_resume_and_range_header() {
    match chunk_request(100, 199, 50, true) {
        ChunkStart::Fetch { from, range_header } => {
            assert_eq!(from, 150);
            assert_eq!(range_header.as_deref(), Some("bytes=150-199"));
        }
        ChunkStart::Done => panic!("not done"),
    }
    assert!(matches!(chunk_request(100, 199, 100, true), ChunkStart::Done));
    match chunk_request(0, 0, 0, false) {
        ChunkStart::Fetch { from, range_header } => assert_eq!((from, range_header), (0, None)),
        ChunkStart::Done => panic!("not done"),
    }
    assert!(chunk_response_ok(200) && chunk_response_ok(206) && !chunk_response_ok(404) && !chunk_response_ok(304));
}

#[test]
fn asset_actions_in_order() {
    let a = |e, c, m, d, l| asset_download_action(e, c, m, d, l, 1000, 10);
    assert!(matches!(a(true, 0, 0, true, 5), AssetAction::Skip(SkipReason::AlreadyExists)));
    assert!(matches!(a(false, 3, 3, false, 50), AssetAction::Skip(SkipReason::FileLimitReached)));
    assert!(matches!(a(false, 3, 0, true, 50), AssetAction::Skip(SkipReason::DryRun)));
    assert!(matches!(a(false, 0, 0, false, 1001), AssetAction::Skip(SkipReason::TooLarge)));
    assert!(matches!(a(false, 0, 0, false, 9), AssetAction::Skip(SkipReason::TooSmall)));
    assert!(matches!(a(false, 0, 0, false, 0), AssetAction::Download));
    assert!(matches!(a(false, 2, 3, false, 10), AssetAction::Download));
    assert!(file_limit_reached(3, 3) && !file_limit_reached(100, 0));
}

#[test]
fn css_paths_by_extension() {
    assert!(is_css_path("backup/css/site.css"));
    assert!(!is_css_path("backup/css/site.css.map"));
    assert!(!is_css_path("backup/css"));
}

#[test]
fn page_actions_in_order() {
    assert!(matches!(page_action(5, 5, true, 200, false, false), PageAction::Stop));
    assert!(matches!(page_action(0, 5, false, 200, false, false), PageAction::SkipUnparsable));
    assert!(matches!(page_action(0, 0, true, 404, false, false), PageAction::SkipErrorPage));
    assert!(matches!(page_action(0, 0, true, 404, true, false), PageAction::Process));
    assert!(matches!(page_action(0, 0, true, 0, false, false), PageAction::Process));
    assert!(matches!(page_action(0, 0, true, 200, false, true), PageAction::SkipEmpty));
}

#[test]
fn progress_length_grows_past_done_pages() {
    assert_eq!(next_progress_length(100, None), Some(101));
    assert_eq!(next_progress_length(99, None), None);
    assert_eq!(next_progress_length(7, Some(7)), Some(8));
}

#[test]
fn sitemap_scope_and_output_dir() {
    let base = WebUrl::parse("https://example.com/start").unwrap();
    assert!(sitemap_url_in_scope(&WebUrl::parse("https://example.com/x").unwrap(), &base));
    assert!(sitemap_url_in_scope(&WebUrl::parse("https://blog.example.com/x").unwrap(), &base));
    assert!(!sitemap_url_in_scope(&WebUrl::parse("https://badexample.com/x").unwrap(), &base));
    assert_eq!(output_dir_name(None, &base), "example.com");
    assert_eq!(output_dir_name(Some("mine".to_string()), &base), "mine");
}

#[test]
fn root_files_and_auth_header() {
    let base = WebUrl::parse("https://example.com/deep/page").unwrap();
    let files = root_file_targets(&base, "out");
    let got: Vec<(String, String)> = files.iter().map(|f| (f.url.as_str().to_string(), f.path.clone())).collect();
    assert_eq!(
        got,
        vec![
            ("https://example.com/deep/robots.txt".to_string(), "out/robots.txt".to_string()),
            ("https://example.com/deep/llms.txt".to_string(), "out/llms.txt".to_string()),
            ("https://example.com/deep/llms-full.txt".to_string(), "out/llms-full.txt".to_string()),
        ]
    );
    assert_eq!(basic_auth_value("user:pass"), "Basic dXNlcjpwYXNz");
}
