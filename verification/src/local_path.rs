//! Mapping URLs to file paths inside the output directory.
use vstd::prelude::*;
use crate::text::{is_ascii_alnum, chars_of, string_from_chars, opt_view, seq_or_empty, ends_with, push_chars, subvec, has_at};
use crate::url_model::{WebUrl, UrlView};

verus! {

/// Characters kept as they are in a sanitized file name.
pub open spec fn keeps_char(c: char) -> bool {
    is_ascii_alnum(c) || c == '.' || c == '-'
}

/// The file name with every other character replaced by `_`.
pub open spec fn sanitized(s: Seq<char>) -> Seq<char> {
    s.map_values(|c: char| if keeps_char(c) { c } else { '_' })
}

/// Replaces every character that is not an ASCII letter, an ASCII digit,
/// `.` or `-` with `_`.
pub fn sanitize_filename(filename: &str) -> (res: String)
    ensures
        res@ == sanitized(filename@),
{
    let chars = chars_of(filename);
    let out = sanitize_chars(&chars);
    string_from_chars(&out)
}

pub fn sanitize_chars(chars: &Vec<char>) -> (out: Vec<char>)
    ensures
        out@ == sanitized(chars@),
{
    let mut out: Vec<char> = Vec::new();
    let mut i: usize = 0;
    while i < chars.len()
        invariant
            i <= chars.len(),
            out@ == sanitized(chars@.take(i as int)),
        decreases chars.len() - i,
    {
        let c = chars[i];
        let keep = ('a' <= c && c <= 'z') || ('A' <= c && c <= 'Z') || ('0' <= c && c <= '9')
            || c == '.' || c == '-';
        if keep {
            out.push(c);
        } else {
            out.push('_');
        }
        assert(chars@.take(i + 1) =~= chars@.take(i as int).push(c));
        i = i + 1;
    }
    assert(chars@.take(i as int) =~= chars@);
    out
}


/// `str::trim_start_matches('/')`.
pub open spec fn trim_leading_slashes(s: Seq<char>) -> Seq<char>
    decreases s.len(),
{
    if s.len() > 0 && s[0] == '/' {
        trim_leading_slashes(s.drop_first())
    } else {
        s
    }
}

/// `PathBuf::push` of a relative component: a separator is inserted unless
/// the path is empty or already ends with one.
pub open spec fn push_path(p: Seq<char>, c: Seq<char>) -> Seq<char> {
    if p.len() > 0 && p.last() != '/' {
        p + seq!['/'] + c
    } else {
        p + c
    }
}

/// `str::split(sep)`, defined by reading the string from left to right.
pub open spec fn split_on(s: Seq<char>, sep: char) -> Seq<Seq<char>>
    decreases s.len(),
{
    if s.len() == 0 {
        seq![Seq::<char>::empty()]
    } else {
        let prev = split_on(s.drop_last(), sep);
        if s.last() == sep {
            prev.push(Seq::<char>::empty())
        } else {
            prev.update(prev.len() - 1, prev.last().push(s.last()))
        }
    }
}

pub proof fn lemma_split_on_nonempty(s: Seq<char>, sep: char)
    ensures
        split_on(s, sep).len() >= 1,
    decreases s.len(),
{
    if s.len() > 0 {
        lemma_split_on_nonempty(s.drop_last(), sep);
    }
}

/// Pushes the segments in order, sanitizing them when `rs` holds and
/// leaving out empty ones when `skip_empty` holds.
pub open spec fn push_each(p: Seq<char>, segs: Seq<Seq<char>>, rs: bool, skip_empty: bool) -> Seq<char>
    decreases segs.len(),
{
    if segs.len() == 0 {
        p
    } else {
        let acc = push_each(p, segs.drop_last(), rs, skip_empty);
        let seg = if rs { sanitized(segs.last()) } else { segs.last() };
        if skip_empty && seg.len() == 0 {
            acc
        } else {
            push_path(acc, seg)
        }
    }
}

/// Index of the last `.` in `s`, or -1.
pub open spec fn last_dot(s: Seq<char>) -> int
    decreases s.len(),
{
    if s.len() == 0 {
        -1
    } else if s.last() == '.' {
        s.len() - 1
    } else {
        last_dot(s.drop_last())
    }
}

/// `Path::file_stem` and `Path::extension` of a single file name, with the
/// name itself standing for a stem that `Path` does not report.
pub open spec fn stem_and_extension(name: Seq<char>) -> (Seq<char>, Option<Seq<char>>) {
    if name == seq!['.', '.'] {
        (name, None)
    } else {
        let i = last_dot(name);
        if i <= 0 {
            (name, None)
        } else {
            (name.take(i), Some(name.skip(i + 1)))
        }
    }
}

/// `PathBuf::set_extension` applied to a file name that begins with a letter.
pub open spec fn with_extension(name: Seq<char>, ext: Seq<char>) -> Seq<char> {
    let stem = stem_and_extension(name).0;
    if ext.len() > 0 {
        stem + seq!['.'] + ext
    } else {
        stem
    }
}

pub open spec fn html_ext() -> Seq<char> {
    seq!['h', 't', 'm', 'l']
}

pub open spec fn index_stem() -> Seq<char> {
    seq!['i', 'n', 'd', 'e', 'x']
}

/// A host belongs to the site: it is the site's host or one of its subdomains.
pub open spec fn host_in_scope(url_host: Seq<char>, base_host: Seq<char>) -> bool {
    url_host == base_host || ends_with(url_host, seq!['.'] + base_host)
}

/// The suffix that the query string adds to a file name.
pub open spec fn query_suffix(q: Option<Seq<char>>) -> Seq<char> {
    match q {
        Some(q) => seq!['_'] + sanitized(q),
        None => Seq::empty(),
    }
}

/// The URL path names a directory: it is empty after its leading slashes,
/// or it ends with a slash.
pub open spec fn is_dir_path(path: Seq<char>) -> bool {
    trim_leading_slashes(path).len() == 0 || (path.len() > 0 && path.last() == '/')
}

pub open spec fn opt_str_view(o: Option<&str>) -> Option<Seq<char>> {
    match o {
        Some(s) => Some(s@),
        None => None,
    }
}

/// The extension that a forced extension, or else `.html`, gives.
pub open spec fn ext_or_html(force: Option<Seq<char>>) -> Seq<char> {
    match force {
        Some(e) => e,
        None => html_ext(),
    }
}

/// The query suffix, which HTML pages leave out.
pub open spec fn suffix_for(q: Seq<char>, ext: Seq<char>) -> Seq<char> {
    if ext == html_ext() {
        Seq::empty()
    } else {
        q
    }
}

/// The last segment of a path, sanitized when `rs` holds.
pub open spec fn file_segment(path: Seq<char>, rs: bool) -> Seq<char> {
    let last = split_on(path, '/').last();
    if rs { sanitized(last) } else { last }
}

/// The file for a URL that names a directory: `index`, the query suffix
/// and the extension (forced, or `.html`).
pub open spec fn dir_file_path(out: Seq<char>, path: Seq<char>, rs: bool, q: Seq<char>, force: Option<Seq<char>>) -> Seq<char> {
    let dir = if rs {
        push_each(out, split_on(path, '/'), true, true)
    } else {
        push_path(out, path)
    };
    let ext = ext_or_html(force);
    push_path(dir, with_extension(index_stem() + q, ext))
}

/// The file for a URL that names a file: its directories, then its stem,
/// the query suffix (left out of HTML pages) and the extension (forced, its
/// own, or `.html`).
pub open spec fn named_file_path(out: Seq<char>, path: Seq<char>, rs: bool, q: Seq<char>, force: Option<Seq<char>>) -> Seq<char> {
    let parts = split_on(path, '/');
    let dir = push_each(out, parts.drop_last(), rs, false);
    let se = stem_and_extension(file_segment(path, rs));
    let ext = match force {
        Some(e) => e,
        None => match se.1 {
            Some(x) => x,
            None => html_ext(),
        },
    };
    push_path(dir, se.0 + suffix_for(q, ext) + seq!['.'] + ext)
}

/// The URL stands for a directory: its path is empty or ends with `/`, or,
/// with no extension forced, its last segment has no extension (a page
/// such as `/about` is stored as `about/index.html`).
pub open spec fn names_directory(path: Seq<char>, rs: bool, force: Option<Seq<char>>) -> bool {
    is_dir_path(path) || (force is None && stem_and_extension(file_segment(trim_leading_slashes(path), rs)).1 is None)
}

/// The local file that stands for a URL: `None` when the URL's host is
/// neither the site's host nor a subdomain of it.
pub open spec fn local_path_for(
    u: UrlView,
    base: UrlView,
    out: Seq<char>,
    rs: bool,
    force: Option<Seq<char>>,
) -> Option<Seq<char>> {
    if !host_in_scope(seq_or_empty(u.host), seq_or_empty(base.host)) {
        None
    } else if names_directory(u.path, rs, force) {
        Some(dir_file_path(out, trim_leading_slashes(u.path), rs, query_suffix(u.query), force))
    } else {
        Some(named_file_path(out, trim_leading_slashes(u.path), rs, query_suffix(u.query), force))
    }
}

/// Appends `c` to the path `p` as a new component.
pub fn push_component(p: &mut Vec<char>, c: &Vec<char>)
    ensures
        final(p)@ == push_path(old(p)@, c@),
{
    if p.len() > 0 && p[p.len() - 1] != '/' {
        p.push('/');
    }
    push_chars(p, c);
}

fn html_chars() -> (v: Vec<char>)
    ensures
        v@ == html_ext(),
{
    let mut v: Vec<char> = Vec::new();
    v.push('h');
    v.push('t');
    v.push('m');
    v.push('l');
    assert(v@ =~= html_ext());
    v
}

/// `host_in_scope`, computed.
pub fn host_matches(url_host: &Vec<char>, base_host: &Vec<char>) -> (r: bool)
    ensures
        r == host_in_scope(url_host@, base_host@),
{
    if url_host.len() == base_host.len() && has_at(url_host, 0, base_host) {
        assert(url_host@ =~= base_host@) by {
            assert(url_host@.subrange(0, base_host@.len() as int) =~= url_host@);
        }
        return true;
    }
    assert(url_host@ != base_host@) by {
        if url_host@ == base_host@ {
            assert(url_host@.subrange(0, base_host@.len() as int) =~= url_host@);
        }
    }
    is_subdomain_of(url_host, base_host)
}

/// `url_host` ends with `.` followed by `base_host`.
pub fn is_subdomain_of(url_host: &Vec<char>, base_host: &Vec<char>) -> (r: bool)
    ensures
        r == ends_with(url_host@, seq!['.'] + base_host@),
{
    let ghost suffix = seq!['.'] + base_host@;
    if url_host.len() <= base_host.len() {
        return false;
    }
    let off = url_host.len() - base_host.len() - 1;
    if url_host[off] != '.' {
        assert(url_host@.skip(off as int)[0] != suffix[0]);
        return false;
    }
    if !has_at(url_host, off + 1, base_host) {
        assert(url_host@.skip(off as int) != suffix) by {
            if url_host@.skip(off as int) == suffix {
                assert forall|j: int| 0 <= j < base_host@.len() implies
                    url_host@.subrange(off + 1, off + 1 + base_host@.len())[j] == base_host@[j] by {
                    assert(url_host@.skip(off as int)[j + 1] == suffix[j + 1]);
                }
                assert(url_host@.subrange(off + 1, off + 1 + base_host@.len()) =~= base_host@);
            }
        }
        return false;
    }
    assert(url_host@.skip(off as int) =~= suffix) by {
        assert(url_host@.subrange(off + 1, off + 1 + base_host@.len()) =~= base_host@);
    }
    true
}

pub fn opt_chars(o: &Option<String>) -> (v: Vec<char>)
    ensures
        v@ == seq_or_empty(opt_view(*o)),
{
    match o {
        Some(s) => chars_of(s.as_str()),
        None => Vec::new(),
    }
}

/// Index of the last `.` in `v`.
fn find_last_dot(v: &Vec<char>) -> (r: Option<usize>)
    ensures
        match r {
            Some(i) => last_dot(v@) == i as int && i < v.len(),
            None => last_dot(v@) == -1,
        },
{
    let mut i: usize = v.len();
    assert(v@.take(i as int) =~= v@);
    while i > 0
        invariant
            i <= v.len(),
            last_dot(v@) == last_dot(v@.take(i as int)),
        decreases i,
    {
        assert(v@.take(i as int).drop_last() =~= v@.take(i - 1));
        if v[i - 1] == '.' {
            return Some(i - 1);
        }
        i = i - 1;
    }
    None
}

/// `stem_and_extension`, computed.
pub fn split_stem_extension(name: &Vec<char>) -> (r: (Vec<char>, Option<Vec<char>>))
    ensures
        r.0@ == stem_and_extension(name@).0,
        match r.1 {
            Some(e) => stem_and_extension(name@).1 == Some(e@),
            None => stem_and_extension(name@).1 is None,
        },
{
    if name.len() == 2 && name[0] == '.' && name[1] == '.' {
        assert(name@ =~= seq!['.', '.']);
        return (name.clone(), None);
    }
    assert(name@ != seq!['.', '.']) by {
        if name@ == seq!['.', '.'] {
            assert(name@[0] == '.' && name@[1] == '.');
        }
    }
    match find_last_dot(name) {
        Some(i) => {
            if i == 0 {
                (name.clone(), None)
            } else {
                (subvec(name, 0, i), Some(subvec(name, i + 1, name.len())))
            }
        },
        None => (name.clone(), None),
    }
}

/// `with_extension`, computed.
fn set_extension_chars(name: &Vec<char>, ext: &Vec<char>) -> (r: Vec<char>)
    ensures
        r@ == with_extension(name@, ext@),
{
    let (mut stem, _) = split_stem_extension(name);
    if ext.len() > 0 {
        stem.push('.');
        push_chars(&mut stem, ext);
    }
    stem
}

/// Pushes the `/`-separated segments of `path` onto `out`, all but the
/// last one, and returns the last one.
pub(crate) fn push_segments(out: &mut Vec<char>, path: &Vec<char>, rs: bool, skip_empty: bool) -> (last: Vec<char>)
    ensures
        split_on(path@, '/').len() >= 1,
        final(out)@ == push_each(old(out)@, split_on(path@, '/').drop_last(), rs, skip_empty),
        last@ == split_on(path@, '/').last(),
{
    let mut cur: Vec<char> = Vec::new();
    let mut j: usize = 0;
    assert(path@.take(0) =~= Seq::<char>::empty());
    assert(split_on(path@.take(0), '/').drop_last() =~= Seq::<Seq<char>>::empty());
    while j < path.len()
        invariant
            j <= path.len(),
            split_on(path@.take(j as int), '/').len() >= 1,
            out@ == push_each(old(out)@, split_on(path@.take(j as int), '/').drop_last(), rs, skip_empty),
            cur@ == split_on(path@.take(j as int), '/').last(),
        decreases path.len() - j,
    {
        let c = path[j];
        let ghost t = path@.take(j + 1);
        let ghost prev = split_on(path@.take(j as int), '/');
        assert(t.drop_last() =~= path@.take(j as int));
        assert(t.last() == c);
        if c == '/' {
            assert(split_on(t, '/') == prev.push(Seq::<char>::empty()));
            assert(split_on(t, '/').drop_last() =~= prev);
            assert(prev.drop_last().push(prev.last()) =~= prev);
            let seg = if rs { sanitize_chars(&cur) } else { cur.clone() };
            if !(skip_empty && seg.len() == 0) {
                push_component(out, &seg);
            }
            cur = Vec::new();
        } else {
            assert(split_on(t, '/') == prev.update(prev.len() - 1, prev.last().push(c)));
            assert(split_on(t, '/').drop_last() =~= prev.drop_last());
            cur.push(c);
        }
        j = j + 1;
    }
    assert(path@.take(j as int) =~= path@);
    cur
}

fn dir_file_chars(out: &mut Vec<char>, path: &Vec<char>, rs: bool, query: &Vec<char>, force: Option<&str>)
    ensures
        final(out)@ == dir_file_path(old(out)@, path@, rs, query@, opt_str_view(force)),
{
    if rs {
        let last = push_segments(out, path, true, true);
        let seg = sanitize_chars(&last);
        if seg.len() > 0 {
            push_component(out, &seg);
        }
        assert(split_on(path@, '/').drop_last().push(split_on(path@, '/').last()) =~= split_on(path@, '/'));
    } else {
        push_component(out, path);
    }
    let mut name: Vec<char> = Vec::new();
    name.push('i');
    name.push('n');
    name.push('d');
    name.push('e');
    name.push('x');
    assert(name@ =~= index_stem());
    let ext = match force {
        Some(e) => chars_of(e),
        None => html_chars(),
    };
    push_chars(&mut name, query);
    let file = set_extension_chars(&name, &ext);
    push_component(out, &file);
}

fn suffix_chars(query: &Vec<char>, ext: &Vec<char>) -> (r: Vec<char>)
    ensures
        r@ == suffix_for(query@, ext@),
{
    let html = html_chars();
    let is_html = ext.len() == 4 && has_at(ext, 0, &html);
    if is_html {
        assert(ext@ =~= html_ext()) by {
            assert(ext@.subrange(0, 4) =~= ext@);
        }
        Vec::new()
    } else {
        assert(ext@ != html_ext()) by {
            if ext@ == html_ext() {
                assert(ext@.subrange(0, 4) =~= ext@);
            }
        }
        query.clone()
    }
}

fn named_file_chars(out: &mut Vec<char>, path: &Vec<char>, rs: bool, query: &Vec<char>, force: Option<&str>)
    ensures
        final(out)@ == named_file_path(old(out)@, path@, rs, query@, opt_str_view(force)),
{
    let last = push_segments(out, path, rs, false);
    let filename = if rs { sanitize_chars(&last) } else { last };
    let (stem, orig_ext) = split_stem_extension(&filename);
    let ext = match force {
        Some(e) => chars_of(e),
        None => match orig_ext {
            Some(x) => x,
            None => html_chars(),
        },
    };
    let suffix = suffix_chars(query, &ext);
    let mut file = stem;
    push_chars(&mut file, &suffix);
    file.push('.');
    push_chars(&mut file, &ext);
    push_component(out, &file);
}

fn query_suffix_chars(q: &Option<String>) -> (v: Vec<char>)
    ensures
        v@ == query_suffix(opt_view(*q)),
{
    match q {
        Some(q) => {
            let mut v: Vec<char> = Vec::new();
            v.push('_');
            let sq = sanitize_chars(&chars_of(q.as_str()));
            push_chars(&mut v, &sq);
            assert(v@ =~= seq!['_'] + sanitized(q@));
            v
        },
        None => {
            let v: Vec<char> = Vec::new();
            assert(v@ =~= Seq::<char>::empty());
            v
        },
    }
}

/// Maps a URL to the file that stands for it inside `output_dir`: `None`
/// when the URL's host is neither the site's host nor a subdomain of it.
/// Directory URLs become `index` files with the forced extension or
/// `.html`; other URLs keep their file name. The query string is folded
/// into the file name, except into that of a file named as an HTML page.
pub fn url_to_local_path(
    url: &WebUrl,
    base_url: &WebUrl,
    output_dir: &str,
    replace_special: bool,
    force_extension: Option<&str>,
) -> (res: Option<String>)
    requires
        force_extension matches Some(e) ==> (host_in_scope(seq_or_empty(url@.host), seq_or_empty(base_url@.host))
            && is_dir_path(url@.path) ==> !e@.contains('/')),
    ensures
        opt_view(res) == local_path_for(url@, base_url@, output_dir@, replace_special, opt_str_view(force_extension)),
{
    let url_host = opt_chars(url.host_str());
    let base_host = opt_chars(base_url.host_str());
    if !host_matches(&url_host, &base_host) {
        return None;
    }
    let raw = chars_of(url.path());
    let mut k: usize = 0;
    assert(raw@.skip(0) =~= raw@);
    while k < raw.len() && raw[k] == '/'
        invariant
            k <= raw.len(),
            trim_leading_slashes(raw@) == trim_leading_slashes(raw@.skip(k as int)),
        decreases raw.len() - k,
    {
        assert(raw@.skip(k as int).drop_first() =~= raw@.skip(k + 1));
        k = k + 1;
    }
    let path = subvec(&raw, k, raw.len());
    assert(path@ =~= raw@.skip(k as int));
    assert(trim_leading_slashes(raw@) == path@);
    let query = query_suffix_chars(url.query());
    let mut out = chars_of(output_dir);
    let is_dir_path = path.len() == 0 || (raw.len() > 0 && raw[raw.len() - 1] == '/');
    let is_dir = if is_dir_path {
        true
    } else if force_extension.is_some() {
        false
    } else {
        let mut scratch: Vec<char> = Vec::new();
        let last = push_segments(&mut scratch, &path, false, false);
        let filename = if replace_special { sanitize_chars(&last) } else { last };
        let (_, e) = split_stem_extension(&filename);
        e.is_none()
    };
    if is_dir {
        dir_file_chars(&mut out, &path, replace_special, &query, force_extension);
    } else {
        named_file_chars(&mut out, &path, replace_special, &query, force_extension);
    }
    Some(string_from_chars(&out))
}

} // verus!
