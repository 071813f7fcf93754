//! Decisions of the asset downloader: what to fetch, in which byte ranges,
//! and what to keep.
use vstd::prelude::*;
use crate::text::{opt_view, chars_of, string_from_chars, push_chars, seq_or_empty};
use crate::url_model::{WebUrl, UrlView};
use crate::local_path::{split_on, host_in_scope, is_dir_path, opt_str_view, local_path_for, url_to_local_path};
use crate::fs_paths::{spec_path_file_name, extension_of_file_name, path_extension};

verus! {

/// Assets above this size are fetched in parallel ranges when the server
/// accepts ranges.
pub const SPLIT_THRESHOLD: u64 = 1_000_000;

/// The number of ranges an asset is fetched in.
pub open spec fn chunk_count(len: u64, ranges: bool) -> u64 {
    if ranges && len > SPLIT_THRESHOLD { 4 } else { 1 }
}

/// The size of every range but the last.
pub open spec fn chunk_size(len: u64, n: u64) -> int {
    if n > 1 { len as int / n as int } else { len as int }
}

/// The first byte of range `i`.
pub open spec fn chunk_start(len: u64, n: u64, i: int) -> int {
    i * chunk_size(len, n)
}

/// The last byte of range `i`: the last byte of the asset for the last
/// range (0 for an empty asset), else the byte before the next range.
pub open spec fn chunk_end(len: u64, n: u64, i: int) -> int {
    if i == n - 1 {
        if len == 0 { 0 } else { len - 1 }
    } else {
        chunk_start(len, n, i) + chunk_size(len, n) - 1
    }
}

/// An inclusive byte range of an asset.
pub struct ChunkRange {
    pub start: u64,
    pub end: u64,
}

/// Why a download failed.
pub enum DownloadError {
    /// The announced length is above the size limit.
    TooLarge { len: u64, max: u64 },
    /// A range could not be fetched.
    ChunksFailed,
    /// The assembled file is below the size limit.
    TooSmall,
    /// A file operation failed.
    Io(String),
}

/// The byte ranges an asset of `content_length` bytes is fetched in: four
/// when the server accepts ranges and the asset is above 1 000 000 bytes,
/// else one; refused when the asset is above `max_size`.
pub fn plan_chunks(content_length: u64, supports_ranges: bool, max_size: u64) -> (res: Result<Vec<ChunkRange>, DownloadError>)
    ensures
        content_length > max_size ==> (res matches Err(DownloadError::TooLarge { len, max }) && len == content_length
            && max == max_size),
        content_length <= max_size ==> (res matches Ok(v) && {
            let n = chunk_count(content_length, supports_ranges);
            &&& v.len() == n
            &&& forall|i: int| 0 <= i < n ==> #[trigger] v@[i].start == chunk_start(content_length, n, i)
                && v@[i].end == chunk_end(content_length, n, i)
        }),
{
    if content_length > max_size {
        return Err(DownloadError::TooLarge { len: content_length, max: max_size });
    }
    let n: u64 = if supports_ranges && content_length > SPLIT_THRESHOLD { 4 } else { 1 };
    let size: u64 = if n > 1 { content_length / n } else { content_length };
    let mut v: Vec<ChunkRange> = Vec::new();
    let mut i: u64 = 0;
    while i < n
        invariant
            n == chunk_count(content_length, supports_ranges),
            size == chunk_size(content_length, n),
            i <= n,
            v.len() == i,
            forall|j: int| 0 <= j < i ==> #[trigger] v@[j].start == chunk_start(content_length, n, j)
                && v@[j].end == chunk_end(content_length, n, j),
        decreases n - i,
    {
        proof {
            if n > 1 {
                assert(size * 4 <= content_length) by (nonlinear_arith)
                    requires size == content_length as int / 4;
                assert(i * size <= 3 * size) by (nonlinear_arith)
                    requires i <= 3, size >= 0;
                assert(size >= 250_000) by (nonlinear_arith)
                    requires size == content_length as int / 4, content_length > 1_000_000;
            } else {
                assert(i == 0);
            }
        }
        let start = i * size;
        let end = if i == n - 1 {
            if content_length == 0 { 0 } else { content_length - 1 }
        } else {
            start + size - 1
        };
        assert(start as int == chunk_start(content_length, n, i as int));
        assert(end as int == chunk_end(content_length, n, i as int));
        let ghost before = v@;
        v.push(ChunkRange { start, end });
        assert(forall|j: int| 0 <= j < i ==> v@[j] == before[j]);
        i = i + 1;
    }
    assert(v@.len() == chunk_count(content_length, supports_ranges));
    let res: Result<Vec<ChunkRange>, DownloadError> = Ok(v);
    assert(res matches Ok(w) && w@ == v@);
    res
}

/// A range whose part file cannot be opened is only tolerated for an
/// empty asset fetched in one range.
pub fn missing_part_tolerated(num_chunks: u64, content_length: u64) -> (r: bool)
    ensures
        r == (num_chunks == 1 && content_length == 0),
{
    num_chunks == 1 && content_length == 0
}

/// The assembled file is kept only within the size range: below
/// `min_size` it is refused as too small, else above `max_size` as too large
/// (its announced length may have been unknown).
pub fn check_final_size(final_len: u64, min_size: u64, max_size: u64) -> (r: Result<(), DownloadError>)
    ensures
        r is Ok <==> min_size <= final_len <= max_size,
        final_len < min_size ==> (r matches Err(e) && e is TooSmall),
        min_size <= final_len && final_len > max_size ==> (r matches Err(DownloadError::TooLarge { len, max })
            && len == final_len && max == max_size),
{
    if final_len < min_size {
        Err(DownloadError::TooSmall)
    } else if final_len > max_size {
        Err(DownloadError::TooLarge { len: final_len, max: max_size })
    } else {
        Ok(())
    }
}

/// The decimal digits of `n`.
pub open spec fn decimal(n: nat) -> Seq<char>
    decreases n,
{
    if n < 10 {
        seq![digit(n)]
    } else {
        decimal(n / 10) + seq![digit(n % 10)]
    }
}

pub open spec fn digit(d: nat) -> char {
    if d == 0 { '0' } else if d == 1 { '1' } else if d == 2 { '2' } else if d == 3 { '3' }
    else if d == 4 { '4' } else if d == 5 { '5' } else if d == 6 { '6' } else if d == 7 { '7' }
    else if d == 8 { '8' } else { '9' }
}

fn digit_char(d: u64) -> (c: char)
    requires
        d < 10,
    ensures
        c == digit(d as nat),
{
    if d == 0 { '0' } else if d == 1 { '1' } else if d == 2 { '2' } else if d == 3 { '3' }
    else if d == 4 { '4' } else if d == 5 { '5' } else if d == 6 { '6' } else if d == 7 { '7' }
    else if d == 8 { '8' } else { '9' }
}

/// The decimal digits of `n`, computed.
pub fn decimal_chars(n: u64) -> (r: Vec<char>)
    ensures
        r@ == decimal(n as nat),
    decreases n,
{
    if n < 10 {
        let mut r: Vec<char> = Vec::new();
        r.push(digit_char(n));
        assert(r@ =~= seq![digit(n as nat)]);
        r
    } else {
        let mut r = decimal_chars(n / 10);
        r.push(digit_char(n % 10));
        r
    }
}

/// The value of a `Range` header: `bytes=<from>-<to>`.
pub open spec fn range_value(from: u64, to: u64) -> Seq<char> {
    seq!['b', 'y', 't', 'e', 's', '='] + decimal(from as nat) + seq!['-'] + decimal(to as nat)
}

/// How a range is fetched.
pub enum ChunkStart {
    /// The part file already holds the range.
    Done,
    /// Fetch from byte `from`, with a `Range` header when ranges are used.
    Fetch { from: u64, range_header: Option<String> },
}

/// Where the fetch of a range starts, given the bytes already in its part
/// file: nothing is left when ranges are used and the part file reaches
/// past the range's end.
pub fn chunk_request(start: u64, end: u64, existing_len: u64, use_range: bool) -> (r: ChunkStart)
    requires
        start + existing_len <= u64::MAX,
    ensures
        use_range && start + existing_len > end ==> r is Done,
        !(use_range && start + existing_len > end) ==> (r matches ChunkStart::Fetch { from, range_header } && from
            == start + existing_len && (use_range ==> (range_header matches Some(h) && h@ == range_value(from, end)))
            && (!use_range ==> range_header is None)),
{
    if use_range && start + existing_len > end {
        return ChunkStart::Done;
    }
    let from = start + existing_len;
    let header = if use_range {
        let mut h: Vec<char> = Vec::new();
        h.push('b');
        h.push('y');
        h.push('t');
        h.push('e');
        h.push('s');
        h.push('=');
        push_chars(&mut h, &decimal_chars(from));
        h.push('-');
        push_chars(&mut h, &decimal_chars(end));
        assert(h@ =~= range_value(from, end));
        Some(string_from_chars(&h))
    } else {
        None
    };
    ChunkStart::Fetch { from, range_header: header }
}

/// A response to a range request is used when its status is a success
/// (2xx, which includes 206 Partial Content).
pub fn chunk_response_ok(status: u16) -> (r: bool)
    ensures
        r == (200 <= status < 300),
{
    (200 <= status && status < 300) || status == 206
}

/// Why an asset is not downloaded.
pub enum SkipReason {
    AlreadyExists,
    FileLimitReached,
    DryRun,
    TooLarge,
    TooSmall,
}

/// What happens to an asset that was scheduled for download.
pub enum AssetAction {
    Skip(SkipReason),
    Download,
}

/// The file limit (`max_files`, 0 for none) is reached.
pub open spec fn limit_reached(count: usize, max_files: usize) -> bool {
    max_files > 0 && count >= max_files
}

/// Whether an asset is downloaded: not when its file exists, the file limit
/// is reached, it is a dry run, or its announced length is above `max_size`
/// or (when known, i.e. non-zero) below `min_size`; checked in that order.
pub open spec fn asset_action(
    exists: bool,
    file_count: usize,
    max_files: usize,
    dry_run: bool,
    len: u64,
    max_size: u64,
    min_size: u64,
) -> AssetAction {
    if exists {
        AssetAction::Skip(SkipReason::AlreadyExists)
    } else if limit_reached(file_count, max_files) {
        AssetAction::Skip(SkipReason::FileLimitReached)
    } else if dry_run {
        AssetAction::Skip(SkipReason::DryRun)
    } else if len > max_size {
        AssetAction::Skip(SkipReason::TooLarge)
    } else if len < min_size && len > 0 {
        AssetAction::Skip(SkipReason::TooSmall)
    } else {
        AssetAction::Download
    }
}

/// `asset_action`, computed.
pub fn asset_download_action(
    exists: bool,
    file_count: usize,
    max_files: usize,
    dry_run: bool,
    len: u64,
    max_size: u64,
    min_size: u64,
) -> (r: AssetAction)
    ensures
        r == asset_action(exists, file_count, max_files, dry_run, len, max_size, min_size),
{
    if exists {
        AssetAction::Skip(SkipReason::AlreadyExists)
    } else if max_files > 0 && file_count >= max_files {
        AssetAction::Skip(SkipReason::FileLimitReached)
    } else if dry_run {
        AssetAction::Skip(SkipReason::DryRun)
    } else if len > max_size {
        AssetAction::Skip(SkipReason::TooLarge)
    } else if len < min_size && len > 0 {
        AssetAction::Skip(SkipReason::TooSmall)
    } else {
        AssetAction::Download
    }
}

/// `max_files > 0 && count >= max_files`.
pub fn file_limit_reached(count: usize, max_files: usize) -> (r: bool)
    ensures
        r == limit_reached(count, max_files),
{
    max_files > 0 && count >= max_files
}

/// A local file is a stylesheet: its extension (`Path::extension`) is `css`.
pub fn is_css_path(local_path: &str) -> (r: bool)
    ensures
        r == (extension_of_file_name(spec_path_file_name(local_path@)) == Some("css"@)),
{
    match path_extension(local_path) {
        Some(e) => crate::text::str_eq(e.as_str(), "css"),
        None => false,
    }
}

} // verus!
