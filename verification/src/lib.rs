//! Offline site cloning: the pure logic of a static-site archiver.
//!
//! Pages and assets fetched by the crawler are mapped to local files,
//! and the links inside HTML and CSS are rewritten to point at those
//! local copies.
use vstd::prelude::*;

pub mod text;
pub mod local_path;
pub mod url_model;
pub mod fs_paths;
pub mod asset_map;
pub mod link_target;
pub mod html_scan;
pub mod words;
pub mod html_links;
pub mod css_links;
pub mod html_doc;
pub mod base_tag;
pub mod download;
pub mod assets;
pub mod crawl;
pub mod page;
pub mod laws;

verus! {
} // verus!
