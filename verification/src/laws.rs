//! Properties that hold of every input.
use vstd::prelude::*;
use crate::text::{starts_with, ends_with, seq_or_empty};
use crate::url_model::UrlView;
use crate::local_path::{sanitized, keeps_char, push_path, push_each, split_on, trim_leading_slashes, host_in_scope, names_directory, with_extension, index_stem, suffix_for, query_suffix, ext_or_html, named_file_path, stem_and_extension, file_segment, html_ext, local_path_for, last_dot, lemma_split_on_nonempty};
use crate::download::{asset_action, AssetAction, chunk_count, chunk_start, chunk_end, chunk_size};
use crate::asset_map::map_get;
use crate::assets::{unique_on_host, has_href};
use crate::url_model::spec_url_join;
use crate::link_target::{LinkEnv, resolved_link, local_target, slashes};
use crate::html_scan::{attr_match_at, attr_match_from, attr_names, keyword_at, folds_to, skip_ws, bare_run_end, after_name, quote_run_end, value_at};
use crate::text::is_ws;
use crate::html_doc::{spec_select_attr, asset_selectors, joined_values, attr_assets, page_assets};
use crate::html_links::{rewritten_html, rewrite_attrs_from, link_value, attr_replacement, ascii_ci_word, srcset_word};
use crate::css_links::{rewritten_css, css_replacement, css_url_at, css_run_end, css_assets_from, rewrite_css_from, url_open};
use crate::html_links::current_dir_for;
use crate::html_scan::is_quote;
use crate::fs_paths::spec_diff_paths;

verus! {

/// A sanitized name has the length of the original, keeps its ASCII
/// letters, digits, `.` and `-`, has `_` in place of every other character,
/// and sanitizing it again changes nothing.
pub proof fn law_sanitized_is_safe(s: Seq<char>)
    ensures
        sanitized(s).len() == s.len(),
        forall|i: int| 0 <= i < s.len() ==> keeps_char(#[trigger] sanitized(s)[i]) || sanitized(s)[i] == '_',
        forall|i: int| 0 <= i < s.len() && keeps_char(s[i]) ==> #[trigger] sanitized(s)[i] == s[i],
        sanitized(sanitized(s)) == sanitized(s),
        forall|i: int| 0 <= i < s.len() ==> #[trigger] sanitized(s)[i] == if ('a' <= s[i] && s[i] <= 'z')
            || ('A' <= s[i] && s[i] <= 'Z') || ('0' <= s[i] && s[i] <= '9') || s[i] == '.' || s[i] == '-' {
            s[i]
        } else {
            '_'
        },
{
    assert(sanitized(sanitized(s)) =~= sanitized(s));
}

proof fn lemma_push_path_extends(p: Seq<char>, c: Seq<char>)
    ensures
        starts_with(push_path(p, c), p),
        ends_with(push_path(p, c), c),
{
    let r = push_path(p, c);
    assert(r.take(p.len() as int) =~= p);
    assert(r.skip(r.len() - c.len()) =~= c);
}

proof fn lemma_starts_with_trans(a: Seq<char>, b: Seq<char>, c: Seq<char>)
    requires
        starts_with(a, b),
        starts_with(b, c),
    ensures
        starts_with(a, c),
{
    assert(a.take(c.len() as int) =~= b.take(c.len() as int));
}

proof fn lemma_push_each_extends(p: Seq<char>, segs: Seq<Seq<char>>, rs: bool, skip_empty: bool)
    ensures
        starts_with(push_each(p, segs, rs, skip_empty), p),
    decreases segs.len(),
{
    if segs.len() == 0 {
        assert(p.take(p.len() as int) =~= p);
    } else {
        let acc = push_each(p, segs.drop_last(), rs, skip_empty);
        lemma_push_each_extends(p, segs.drop_last(), rs, skip_empty);
        let seg = if rs { sanitized(segs.last()) } else { segs.last() };
        if !(skip_empty && seg.len() == 0) {
            lemma_push_path_extends(acc, seg);
            lemma_starts_with_trans(push_path(acc, seg), acc, p);
        }
    }
}

/// Every local file lies under the output directory: its path begins with
/// the output directory's path.
pub proof fn law_local_path_inside_output_dir(
    u: UrlView,
    base: UrlView,
    out: Seq<char>,
    rs: bool,
    force: Option<Seq<char>>,
)
    ensures
        local_path_for(u, base, out, rs, force) matches Some(p) ==> starts_with(p, out),
{
    let path = trim_leading_slashes(u.path);
    if host_in_scope(seq_or_empty(u.host), seq_or_empty(base.host)) {
        if names_directory(u.path, rs, force) {
            let dir = if rs {
                push_each(out, split_on(path, '/'), true, true)
            } else {
                push_path(out, path)
            };
            if rs {
                lemma_push_each_extends(out, split_on(path, '/'), true, true);
            } else {
                lemma_push_path_extends(out, path);
            }
            let name = with_extension(index_stem() + query_suffix(u.query), ext_or_html(force));
            lemma_push_path_extends(dir, name);
            lemma_starts_with_trans(push_path(dir, name), dir, out);
        } else {
            let parts = split_on(path, '/');
            let dir = push_each(out, parts.drop_last(), rs, false);
            lemma_push_each_extends(out, parts.drop_last(), rs, false);
            let p = named_file_path(out, path, rs, query_suffix(u.query), force);
            let se = stem_and_extension(file_segment(path, rs));
            let ext = match force {
                Some(e) => e,
                None => match se.1 {
                    Some(x) => x,
                    None => html_ext(),
                },
            };
            lemma_push_path_extends(dir, se.0 + suffix_for(query_suffix(u.query), ext) + seq!['.'] + ext);
            lemma_starts_with_trans(p, dir, out);
        }
    }
}

/// Only URLs on the site's host or its subdomains have local files: a URL
/// has one exactly when its host is the site's host or ends with `.` and the
/// site's host. A shorter host, such as a parent domain of the site's, has
/// none.
pub proof fn law_local_path_only_in_scope(
    u: UrlView,
    base: UrlView,
    out: Seq<char>,
    rs: bool,
    force: Option<Seq<char>>,
)
    ensures
        (local_path_for(u, base, out, rs, force) is Some) == host_in_scope(seq_or_empty(u.host), seq_or_empty(base.host)),
        (local_path_for(u, base, out, rs, force) is Some) == (seq_or_empty(u.host) == seq_or_empty(base.host)
            || ends_with(seq_or_empty(u.host), seq!['.'] + seq_or_empty(base.host))),
        seq_or_empty(u.host).len() < seq_or_empty(base.host).len() ==> local_path_for(u, base, out, rs, force) is None,
{
}


/// No character of `s` is `/`.
pub open spec fn no_slash(s: Seq<char>) -> bool {
    forall|i: int| 0 <= i < s.len() ==> s[i] != '/'
}

/// No `/`-separated component of `s` is `..`.
pub open spec fn no_parent_step(s: Seq<char>) -> bool {
    forall|i: int| 0 <= i < split_on(s, '/').len() ==> #[trigger] split_on(s, '/')[i] != seq!['.', '.']
}

/// A relative path that stays below the directory it is pushed onto: not
/// empty, not starting at a root, and without `..` components.
pub open spec fn descends(s: Seq<char>) -> bool {
    s.len() > 0 && s[0] != '/' && no_parent_step(s)
}

proof fn lemma_split_concat(a: Seq<char>, b: Seq<char>)
    ensures
        split_on(a + seq!['/'] + b, '/') == split_on(a, '/') + split_on(b, '/'),
    decreases b.len(),
{
    let s = a + seq!['/'] + b;
    if b.len() == 0 {
        assert(s.drop_last() =~= a);
        assert(split_on(b, '/') =~= seq![Seq::<char>::empty()]);
        assert(split_on(s, '/') =~= split_on(a, '/') + split_on(b, '/'));
    } else {
        lemma_split_concat(a, b.drop_last());
        lemma_split_on_nonempty(b.drop_last(), '/');
        assert(s.drop_last() =~= a + seq!['/'] + b.drop_last());
        assert(s.last() == b.last());
        let x = split_on(a, '/');
        let y = split_on(b.drop_last(), '/');
        if b.last() == '/' {
            assert(split_on(s, '/') =~= x + y.push(Seq::<char>::empty()));
        } else {
            assert((x + y).update(x.len() + y.len() - 1, y.last().push(b.last()))
                =~= x + y.update(y.len() - 1, y.last().push(b.last())));
        }
    }
}

proof fn lemma_split_no_slash(s: Seq<char>)
    requires
        no_slash(s),
    ensures
        split_on(s, '/') == seq![s],
    decreases s.len(),
{
    if s.len() == 0 {
        assert(s =~= Seq::<char>::empty());
    } else {
        assert(no_slash(s.drop_last()));
        lemma_split_no_slash(s.drop_last());
        assert(s.last() != '/') by {
            assert(s[s.len() - 1] != '/');
        }
        assert(s.drop_last().push(s.last()) =~= s);
        assert(seq![s.drop_last()].update(0, s.drop_last().push(s.last())) =~= seq![s]);
    }
}

proof fn lemma_split_parts_no_slash(s: Seq<char>)
    ensures
        forall|i: int| 0 <= i < split_on(s, '/').len() ==> no_slash(#[trigger] split_on(s, '/')[i]),
    decreases s.len(),
{
    if s.len() > 0 {
        lemma_split_parts_no_slash(s.drop_last());
        lemma_split_on_nonempty(s.drop_last(), '/');
        let prev = split_on(s.drop_last(), '/');
        if s.last() != '/' {
            let l = prev.last().push(s.last());
            assert(no_slash(l)) by {
                assert(no_slash(prev[prev.len() - 1]));
            }
        }
    }
}

proof fn lemma_sanitized_parts(x: Seq<char>)
    ensures
        no_slash(sanitized(x)),
        sanitized(x) == seq!['.', '.'] ==> x == seq!['.', '.'],
{
    if sanitized(x) == seq!['.', '.'] {
        assert(sanitized(x)[0] == '.' && sanitized(x)[1] == '.');
        assert(x =~= seq!['.', '.']);
    }
}

/// The component that `push_each` pushes for a segment.
pub open spec fn pushed_seg(seg: Seq<char>, rs: bool) -> Seq<char> {
    if rs { sanitized(seg) } else { seg }
}

proof fn lemma_push_each_descends(p: Seq<char>, segs: Seq<Seq<char>>, rs: bool, skip: bool, f: Seq<char>) -> (r: Seq<char>)
    requires
        forall|i: int| 0 <= i < segs.len() ==> no_slash(#[trigger] segs[i]) && segs[i] != seq!['.', '.'],
        descends(f),
    ensures
        descends(r),
        push_path(push_each(p, segs, rs, skip), f) == push_path(p, r),
    decreases segs.len(),
{
    if segs.len() == 0 {
        f
    } else {
        let acc = push_each(p, segs.drop_last(), rs, skip);
        let last = segs.last();
        assert(no_slash(last) && last != seq!['.', '.']) by {
            assert(segs[segs.len() - 1] == last);
        }
        let seg = pushed_seg(last, rs);
        lemma_sanitized_parts(last);
        assert(no_slash(seg) && seg != seq!['.', '.']);
        if skip && seg.len() == 0 {
            lemma_push_each_descends(p, segs.drop_last(), rs, skip, f)
        } else if seg.len() == 0 {
            assert(push_path(push_path(acc, seg), f) == push_path(acc, f)) by {
                if acc.len() > 0 && acc.last() != '/' {
                    assert(push_path(acc, seg) =~= acc + seq!['/']);
                    assert(push_path(acc + seq!['/'], f) =~= acc + seq!['/'] + f);
                } else {
                    assert(push_path(acc, seg) =~= acc);
                }
            }
            lemma_push_each_descends(p, segs.drop_last(), rs, skip, f)
        } else {
            let g = seg + seq!['/'] + f;
            let q = push_path(acc, seg);
            assert(q.len() > 0 && q.last() == seg.last());
            assert(seg.last() != '/') by {
                assert(seg[seg.len() - 1] != '/');
            }
            assert(push_path(q, f) =~= push_path(acc, g));
            lemma_split_concat(seg, f);
            lemma_split_no_slash(seg);
            assert(no_parent_step(g)) by {
                assert forall|i: int| 0 <= i < split_on(g, '/').len() implies #[trigger] split_on(g, '/')[i] != seq!['.', '.'] by {
                    if i > 0 {
                        assert(split_on(g, '/')[i] == split_on(f, '/')[i - 1]);
                    }
                }
            }
            assert(g[0] == seg[0]);
            assert(seg[0] != '/');
            lemma_push_each_descends(p, segs.drop_last(), rs, skip, g)
        }
    }
}

proof fn lemma_last_dot_bounds(s: Seq<char>)
    ensures
        -1 <= last_dot(s) < s.len(),
        last_dot(s) >= 0 ==> s[last_dot(s)] == '.',
    decreases s.len(),
{
    if s.len() > 0 && s.last() != '.' {
        lemma_last_dot_bounds(s.drop_last());
    }
}

proof fn lemma_trim_leading_slashes(s: Seq<char>)
    ensures
        ({
            let t = trim_leading_slashes(s);
            &&& t.len() <= s.len()
            &&& t.len() > 0 ==> t[0] != '/' && t.last() == s.last()
        }),
    decreases s.len(),
{
    if s.len() > 0 && s[0] == '/' {
        lemma_trim_leading_slashes(s.drop_first());
    }
}

proof fn lemma_last_segment_nonempty(s: Seq<char>)
    requires
        s.len() > 0,
        s.last() != '/',
    ensures
        split_on(s, '/').last().len() > 0,
{
    lemma_split_on_nonempty(s.drop_last(), '/');
}

proof fn lemma_query_suffix_no_slash(q: Option<Seq<char>>)
    ensures
        no_slash(query_suffix(q)),
{
    match q {
        Some(x) => {
            lemma_sanitized_parts(x);
            let r = seq!['_'] + sanitized(x);
            assert forall|i: int| 0 <= i < r.len() implies r[i] != '/' by {
                if i > 0 {
                    assert(r[i] == sanitized(x)[i - 1]);
                }
            }
        },
        None => {},
    }
}

proof fn lemma_no_slash_concat(a: Seq<char>, b: Seq<char>)
    requires
        no_slash(a),
        no_slash(b),
    ensures
        no_slash(a + b),
{
    assert forall|i: int| 0 <= i < (a + b).len() implies (a + b)[i] != '/' by {
        if i >= a.len() {
            assert((a + b)[i] == b[i - a.len()]);
        }
    }
}

proof fn lemma_single_component(f: Seq<char>)
    requires
        no_slash(f),
        f.len() > 0,
        f != seq!['.', '.'],
    ensures
        descends(f),
{
    lemma_split_no_slash(f);
}

/// The file name of a URL that names a directory descends.
proof fn lemma_dir_file_descends(qs: Seq<char>, ext: Seq<char>)
    requires
        no_slash(qs),
        no_slash(ext),
    ensures
        descends(with_extension(index_stem() + qs, ext)),
{
    let name = index_stem() + qs;
    assert(no_slash(index_stem()));
    lemma_no_slash_concat(index_stem(), qs);
    assert(name[0] == 'i');
    assert(name != seq!['.', '.']) by {
        if name == seq!['.', '.'] {
            assert(name[0] == '.');
        }
    }
    let i = last_dot(name);
    lemma_last_dot_bounds(name);
    let stem = stem_and_extension(name).0;
    assert(stem.len() > 0 && stem[0] == 'i' && no_slash(stem));
    let f = with_extension(name, ext);
    if ext.len() > 0 {
        lemma_no_slash_concat(stem, seq!['.']);
        lemma_no_slash_concat(stem + seq!['.'], ext);
    }
    assert(f[0] == 'i');
    assert(f != seq!['.', '.']) by {
        if f == seq!['.', '.'] {
            assert(f[0] == '.');
        }
    }
    lemma_single_component(f);
}

/// The file name of a URL that names a file descends, unless it is forced
/// to an empty extension.
proof fn lemma_named_file_descends(seg: Seq<char>, qs: Seq<char>, force: Option<Seq<char>>)
    requires
        no_slash(seg),
        seg.len() > 0,
        seg != seq!['.', '.'],
        no_slash(qs),
        force matches Some(e) ==> e.len() > 0 && no_slash(e),
    ensures
        ({
            let se = stem_and_extension(seg);
            let ext = match force {
                Some(e) => e,
                None => match se.1 {
                    Some(x) => x,
                    None => html_ext(),
                },
            };
            descends(se.0 + suffix_for(qs, ext) + seq!['.'] + ext)
        }),
{
    let se = stem_and_extension(seg);
    let ext = match force {
        Some(e) => e,
        None => match se.1 {
            Some(x) => x,
            None => html_ext(),
        },
    };
    let i = last_dot(seg);
    lemma_last_dot_bounds(seg);
    assert(se.0.len() > 0 && se.0[0] == seg[0] && no_slash(se.0));
    assert(se.1 matches Some(x) ==> no_slash(x)) by {
        if i > 0 {
            assert(no_slash(seg.skip(i + 1)));
        }
    }
    assert(no_slash(html_ext()));
    assert(no_slash(ext));
    let sfx = suffix_for(qs, ext);
    assert(no_slash(sfx));
    let file = se.0 + sfx + seq!['.'] + ext;
    lemma_no_slash_concat(se.0, sfx);
    lemma_no_slash_concat(se.0 + sfx, seq!['.']);
    lemma_no_slash_concat(se.0 + sfx + seq!['.'], ext);
    assert(file[0] == seg[0]);
    assert(file != seq!['.', '.']) by {
        if file == seq!['.', '.'] {
            assert(file.len() == 2);
            assert(file.len() == se.0.len() + sfx.len() + 1 + ext.len());
            assert(se.0.len() == 1 && sfx.len() == 0 && ext.len() == 0);
            assert(force is None);
            assert(html_ext().len() == 4);
            assert(se.1 is Some);
            assert(i > 0);
            assert(seg.len() == i + 1);
            assert(file[0] == '.');
            assert(seg =~= seq!['.', '.']);
        }
    }
    lemma_single_component(file);
}

/// A local file lies below the output directory: it is the output
/// directory with a relative path pushed onto it that is not empty, does
/// not start at a root and has no `..` component. This holds for every URL
/// whose path has no `..` segment (a parsed URL's path has none) and for
/// every forced extension that is not empty and holds no `/`.
pub proof fn law_local_path_stays_below_output_dir(
    u: UrlView,
    base: UrlView,
    out: Seq<char>,
    rs: bool,
    force: Option<Seq<char>>,
)
    requires
        no_parent_step(trim_leading_slashes(u.path)),
        force matches Some(e) ==> e.len() > 0 && !e.contains('/'),
    ensures
        local_path_for(u, base, out, rs, force) matches Some(p)
            ==> exists|rest: Seq<char>| descends(rest) && p == push_path(out, rest),
{
    if host_in_scope(seq_or_empty(u.host), seq_or_empty(base.host)) {
        let path = trim_leading_slashes(u.path);
        let qs = query_suffix(u.query);
        let parts = split_on(path, '/');
        lemma_trim_leading_slashes(u.path);
        lemma_query_suffix_no_slash(u.query);
        lemma_split_parts_no_slash(path);
        lemma_split_on_nonempty(path, '/');
        assert(force matches Some(e) ==> no_slash(e)) by {
            if let Some(e) = force {
                assert forall|i: int| 0 <= i < e.len() implies e[i] != '/' by {
                    if e[i] == '/' {
                        assert(e.contains('/'));
                    }
                }
            }
        }
        let p = local_path_for(u, base, out, rs, force).unwrap();
        if names_directory(u.path, rs, force) {
            let ext = ext_or_html(force);
            assert(no_slash(html_ext()));
            let f = with_extension(index_stem() + qs, ext);
            lemma_dir_file_descends(qs, ext);
            if rs {
                let r = lemma_push_each_descends(out, parts, true, true, f);
                assert(descends(r) && p == push_path(out, r));
            } else {
                let dir = push_path(out, path);
                if path.len() == 0 {
                    assert(push_path(dir, f) == push_path(out, f)) by {
                        if out.len() > 0 && out.last() != '/' {
                            assert(dir =~= out + seq!['/']);
                            assert(push_path(dir, f) =~= out + seq!['/'] + f);
                        } else {
                            assert(dir =~= out);
                        }
                    }
                    assert(descends(f) && p == push_path(out, f));
                } else {
                    let front = if path.last() == '/' { path.drop_last() } else { path };
                    let rest = front + seq!['/'] + f;
                    assert(no_parent_step(front)) by {
                        if path.last() == '/' {
                            assert(path =~= front + seq!['/'] + Seq::<char>::empty());
                            lemma_split_concat(front, Seq::<char>::empty());
                            assert forall|i: int| 0 <= i < split_on(front, '/').len()
                                implies #[trigger] split_on(front, '/')[i] != seq!['.', '.'] by {
                                assert(split_on(path, '/')[i] == split_on(front, '/')[i]);
                            }
                        }
                    }
                    lemma_split_concat(front, f);
                    assert(no_parent_step(rest)) by {
                        assert forall|i: int| 0 <= i < split_on(rest, '/').len()
                            implies #[trigger] split_on(rest, '/')[i] != seq!['.', '.'] by {
                            if i < split_on(front, '/').len() {
                                assert(split_on(rest, '/')[i] == split_on(front, '/')[i]);
                            } else {
                                assert(split_on(rest, '/')[i] == split_on(f, '/')[i - split_on(front, '/').len()]);
                            }
                        }
                    }
                    assert(rest[0] != '/') by {
                        if path.last() == '/' && front.len() == 0 {
                            assert(path =~= seq!['/']);
                        } else {
                            assert(rest[0] == path[0]);
                        }
                    }
                    assert(p == push_path(out, rest)) by {
                        if path.last() == '/' {
                            assert(path =~= front + seq!['/']);
                        }
                        assert(dir.len() > 0);
                        if out.len() > 0 && out.last() != '/' {
                            assert(dir =~= out + seq!['/'] + path);
                        } else {
                            assert(dir =~= out + path);
                        }
                        assert(dir.last() == path.last());
                    }
                    assert(descends(rest));
                }
            }
        } else {
            assert(path.len() > 0 && path.last() != '/');
            lemma_last_segment_nonempty(path);
            let last = parts.last();
            assert(no_slash(last) && last != seq!['.', '.']) by {
                assert(parts[parts.len() - 1] == last);
            }
            lemma_sanitized_parts(last);
            let seg = file_segment(path, rs);
            assert(seg.len() > 0 && no_slash(seg) && seg != seq!['.', '.']);
            lemma_named_file_descends(seg, qs, force);
            let se = stem_and_extension(seg);
            let ext = match force {
                Some(e) => e,
                None => match se.1 {
                    Some(x) => x,
                    None => html_ext(),
                },
            };
            let file = se.0 + suffix_for(qs, ext) + seq!['.'] + ext;
            assert forall|i: int| 0 <= i < parts.drop_last().len() implies
                no_slash(#[trigger] parts.drop_last()[i]) && parts.drop_last()[i] != seq!['.', '.'] by {
                assert(parts.drop_last()[i] == parts[i]);
            }
            let r = lemma_push_each_descends(out, parts.drop_last(), rs, false, file);
            assert(p == named_file_path(out, path, rs, qs, force));
            assert(descends(r) && p == push_path(out, r));
        }
    }
}

/// Only the path and the query of an in-scope URL choose its file: the
/// scheme, port, user information, fragment and which of the site's hosts
/// it names do not.
pub proof fn law_local_path_reads_only_path_and_query(
    u1: UrlView,
    u2: UrlView,
    base: UrlView,
    out: Seq<char>,
    rs: bool,
    force: Option<Seq<char>>,
)
    requires
        host_in_scope(seq_or_empty(u1.host), seq_or_empty(base.host)),
        host_in_scope(seq_or_empty(u2.host), seq_or_empty(base.host)),
        u1.path == u2.path,
        u1.query == u2.query,
    ensures
        local_path_for(u1, base, out, rs, force) == local_path_for(u2, base, out, rs, force),
{
}

proof fn lemma_bare_run_end_ge(t: Seq<char>, i: int)
    ensures
        bare_run_end(t, i) >= i,
    decreases t.len() - i,
{
    if 0 <= i < t.len() && !is_ws(t[i]) && t[i] != '>' {
        lemma_bare_run_end_ge(t, i + 1);
    }
}

/// The link attributes of the grammar are exactly `href`, `src`, `action`,
/// `data`, `poster` and `srcset`: each of them, in any ASCII case, followed
/// by `=` and a bare value, is matched where it begins, with the name ending
/// before the `=` and the value starting right after it.
pub proof fn law_link_attribute_names(t: Seq<char>, p: int, w: Seq<char>)
    requires
        w == seq!['h', 'r', 'e', 'f'] || w == seq!['s', 'r', 'c'] || w == seq!['a', 'c', 't', 'i', 'o', 'n']
            || w == seq!['d', 'a', 't', 'a'] || w == seq!['p', 'o', 's', 't', 'e', 'r']
            || w == seq!['s', 'r', 'c', 's', 'e', 't'],
        0 <= p,
        p + w.len() + 1 < t.len(),
        forall|j: int| 0 <= j < w.len() ==> t[p + j] == w[j] || (t[p + j] as int) + 32 == (w[j] as int),
        t[p + w.len()] == '=',
        !is_ws(t[p + w.len() + 1]),
        t[p + w.len() + 1] != '>',
        t[p + w.len() + 1] != '"',
        t[p + w.len() + 1] != '\'',
    ensures
        attr_names() == seq![
            seq!['h', 'r', 'e', 'f'],
            seq!['s', 'r', 'c'],
            seq!['a', 'c', 't', 'i', 'o', 'n'],
            seq!['d', 'a', 't', 'a'],
            seq!['p', 'o', 's', 't', 'e', 'r'],
            seq!['s', 'r', 'c', 's', 'e', 't'],
        ],
        attr_match_at(t, p) matches Some(m) && m.0 == p + w.len() && m.1 == p + w.len() + 1,
{
    let n = p + w.len();
    assert(attr_names() =~= seq![
        seq!['h', 'r', 'e', 'f'],
        seq!['s', 'r', 'c'],
        seq!['a', 'c', 't', 'i', 'o', 'n'],
        seq!['d', 'a', 't', 'a'],
        seq!['p', 'o', 's', 't', 'e', 'r'],
        seq!['s', 'r', 'c', 's', 'e', 't'],
    ]);
    assert(!is_ws('='));
    assert(skip_ws(t, n) == n);
    assert(skip_ws(t, n + 1) == n + 1);
    lemma_bare_run_end_ge(t, n + 2);
    assert(bare_run_end(t, n + 1) > n + 1);
    assert(after_name(t, n) == Some((n + 1, bare_run_end(t, n + 1), bare_run_end(t, n + 1))));
    assert(keyword_at(t, p, w)) by {
        assert forall|j: int| #![trigger w[j]] 0 <= j < w.len() implies folds_to(t[p + j], w[j]) by {
            assert(t[p + j] == w[j] || (t[p + j] as int) + 32 == (w[j] as int));
        }
    }
    let c0 = t[p];
    assert(c0 == w[0] || (c0 as int) + 32 == (w[0] as int));
    reveal_with_fuel(attr_match_from, 7);
    if w == seq!['s', 'r', 'c', 's', 'e', 't'] {
        let c3 = t[p + 3];
        assert(c3 == 's' || (c3 as int) + 32 == ('s' as int));
        assert(!is_ws(c3) && c3 != '=');
        assert(skip_ws(t, p + 3) == p + 3);
        assert(after_name(t, p + 3) is None);
    }
}

/// The element and attribute pairs whose values name a page's assets.
pub open spec fn documented_asset_attributes() -> Seq<(Seq<char>, Seq<char>)> {
    seq![
        ("img[src]"@, "src"@),
        ("script[src]"@, "src"@),
        ("link[href]"@, "href"@),
        ("video[src]"@, "src"@),
        ("video[poster]"@, "poster"@),
        ("audio[src]"@, "src"@),
        ("source[src]"@, "src"@),
        ("embed[src]"@, "src"@),
        ("iframe[src]"@, "src"@),
        ("frame[src]"@, "src"@),
        ("object[data]"@, "data"@),
        ("track[src]"@, "src"@),
        ("form[action]"@, "action"@),
        ("meta[property='og:image'][content]"@, "content"@),
        ("meta[name='twitter:image'][content]"@, "content"@),
        ("link[rel='icon'][href]"@, "href"@),
        ("link[rel='shortcut icon'][href]"@, "href"@),
        ("link[rel='apple-touch-icon'][href]"@, "href"@),
    ]
}

proof fn lemma_joined_values_contains(page: UrlView, vals: Seq<Option<Seq<char>>>, i: int, v: Seq<char>, w: UrlView)
    requires
        0 <= i < vals.len(),
        vals[i] == Some(v),
        spec_url_join(page, v) == Some(w),
    ensures
        joined_values(page, vals).contains(w),
    decreases vals.len(),
{
    let prev = joined_values(page, vals.drop_last());
    let cur = joined_values(page, vals);
    if i == vals.len() - 1 {
        assert(cur == prev.push(w));
        assert(cur[prev.len() as int] == w);
    } else {
        assert(vals.drop_last()[i] == vals[i]);
        lemma_joined_values_contains(page, vals.drop_last(), i, v, w);
        let k = choose|k: int| 0 <= k < prev.len() && prev[k] == w;
        assert(cur[k] == w);
    }
}

proof fn lemma_attr_assets_contains(html: Seq<char>, page: UrlView, k: int, j: int, vals: Seq<Option<Seq<char>>>, i: int, v: Seq<char>, w: UrlView)
    requires
        0 <= j < k <= 18,
        spec_select_attr(html, asset_selectors()[j].0, asset_selectors()[j].1) == Some(vals),
        0 <= i < vals.len(),
        vals[i] == Some(v),
        spec_url_join(page, v) == Some(w),
    ensures
        attr_assets(html, page, k).contains(w),
    decreases k,
{
    let prev = attr_assets(html, page, k - 1);
    let cur = attr_assets(html, page, k);
    if j == k - 1 {
        lemma_joined_values_contains(page, vals, i, v, w);
        let jv = joined_values(page, vals);
        let x = choose|x: int| 0 <= x < jv.len() && jv[x] == w;
        assert(cur == prev + jv);
        assert(cur[prev.len() + x] == w);
    } else {
        lemma_attr_assets_contains(html, page, k - 1, j, vals, i, v, w);
        let x = choose|x: int| 0 <= x < prev.len() && prev[x] == w;
        assert(cur[x] == w);
    }
}

/// Every element that one of the documented selectors selects, and whose
/// documented attribute holds a value that resolves against the page,
/// contributes the resolved URL to the page's assets; and the selectors
/// read are exactly the documented ones, each with its own attribute.
pub proof fn law_asset_attributes_collected(
    html: Seq<char>,
    page: UrlView,
    j: int,
    vals: Seq<Option<Seq<char>>>,
    i: int,
    v: Seq<char>,
    w: UrlView,
)
    requires
        0 <= j < 18,
        spec_select_attr(html, documented_asset_attributes()[j].0, documented_asset_attributes()[j].1) == Some(vals),
        0 <= i < vals.len(),
        vals[i] == Some(v),
        spec_url_join(page, v) == Some(w),
    ensures
        asset_selectors() == documented_asset_attributes(),
        page_assets(html, page).contains(w),
{
    assert(asset_selectors() =~= documented_asset_attributes());
    lemma_attr_assets_contains(html, page, 18, j, vals, i, v, w);
    let a = attr_assets(html, page, 18);
    let x = choose|x: int| 0 <= x < a.len() && a[x] == w;
    assert(page_assets(html, page)[x] == w);
}

proof fn lemma_css_run_end_to(t: Seq<char>, i: int, e: int)
    requires
        0 <= i <= e < t.len(),
        forall|k: int| i <= k < e ==> t[k] != '"' && t[k] != '\'' && t[k] != ')',
        t[e] == ')',
    ensures
        css_run_end(t, i) == e,
    decreases e - i,
{
    if i < e {
        lemma_css_run_end_to(t, i + 1, e);
    }
}

proof fn lemma_css_run_end_ge(t: Seq<char>, i: int)
    ensures
        css_run_end(t, i) >= i,
    decreases t.len() - i,
{
    if 0 <= i < t.len() && !is_quote(t[i]) && t[i] != ')' {
        lemma_css_run_end_ge(t, i + 1);
    }
}

/// Every `url(...)` reference that the left-to-right scan reaches is
/// collected: starting anywhere before it with no reference in between, the
/// URL its link resolves to against the stylesheet is among the assets,
/// whatever the link's first character, unless the link is a `data:` link.
pub proof fn law_css_references_collected(t: Seq<char>, pos: int, q: int, u: UrlView, w: UrlView)
    requires
        0 <= pos <= q,
        forall|r: int| pos <= r < q ==> #[trigger] css_url_at(t, r) is None,
        css_url_at(t, q) is Some,
        !starts_with(t.subrange(css_url_at(t, q).unwrap().0, css_url_at(t, q).unwrap().1), "data:"@),
        spec_url_join(u, t.subrange(css_url_at(t, q).unwrap().0, css_url_at(t, q).unwrap().1)) == Some(w),
    ensures
        css_assets_from(t, pos, u).contains(w),
    decreases q - pos,
{
    let m = css_url_at(t, q).unwrap();
    assert(q + 4 <= t.len());
    lemma_css_run_end_ge(t, if q + 4 < t.len() && is_quote(t[q + 4]) { q + 5 } else { q + 4 });
    assert(q < m.2 <= t.len());
    if pos == q {
        let rest = css_assets_from(t, m.2, u);
        assert(css_assets_from(t, pos, u) == seq![w] + rest);
        assert((seq![w] + rest)[0] == w);
    } else {
        assert(css_url_at(t, pos) is None);
        law_css_references_collected(t, pos + 1, q, u, w);
    }
}

/// A stylesheet's link is resolved against the stylesheet's own URL: a
/// stylesheet that has a local file and holds the one reference
/// `url(L)` comes out as `url('R')`, where R is the relative path (with `/`
/// separators) from the directory of the stylesheet's file to the file of
/// the URL that L resolves to against the stylesheet, followed by that
/// URL's fragment, when that URL is on the site's host and has a file.
pub proof fn law_css_links_resolve_against_stylesheet(
    link: Seq<char>,
    css_url: UrlView,
    base: UrlView,
    out: Seq<char>,
    rs: bool,
    assets: Map<Seq<char>, Seq<char>>,
    cur: Seq<char>,
    v: UrlView,
    f: Seq<char>,
    rel: Seq<char>,
)
    requires
        link.len() > 0,
        forall|k: int| 0 <= k < link.len() ==> link[k] != '"' && link[k] != '\'' && link[k] != ')',
        !starts_with(link, "data:"@),
        local_path_for(css_url, base, out, rs, None) == Some(cur),
        spec_url_join(css_url, link) == Some(v),
        v.host == base.host,
        !assets.contains_key(v.href),
        local_path_for(v, base, out, rs, None) == Some(f),
        spec_diff_paths(f, current_dir_for(cur, out)) == Some(rel),
        rel.len() > 0,
    ensures
        rewritten_css(seq!['u', 'r', 'l', '('] + link + seq![')'], css_url, base, out, rs, assets)
            == seq!['u', 'r', 'l', '(', '\''] + slashes(rel) + match v.fragment {
                Some(fr) => seq!['#'] + fr,
                None => Seq::<char>::empty(),
            } + seq!['\'', ')'],
{
    let t = seq!['u', 'r', 'l', '('] + link + seq![')'];
    let env = LinkEnv { page: css_url, base, out_dir: out, rs, assets, cur_dir: current_dir_for(cur, out) };
    let e: int = 4 + link.len() as int;
    assert(t.subrange(0, 4) =~= url_open());
    assert(t[4] == link[0]);
    assert forall|k: int| 4 <= k < e implies t[k] != '"' && t[k] != '\'' && t[k] != ')' by {
        assert(t[k] == link[k - 4]);
    }
    assert(t[e] == ')');
    lemma_css_run_end_to(t, 4, e);
    assert(css_url_at(t, 0) == Some((4int, e, e + 1)));
    assert(t.subrange(4, e) =~= link);
    assert(rewrite_css_from(t, e + 1, env) == Seq::<char>::empty());
    assert(map_get(assets, v.href) is None);
    assert(slashes(rel).len() == rel.len());
    assert(local_target(link, env) == Some((v, f, slashes(rel))));
    let r = slashes(rel);
    let inner = match v.fragment {
        Some(fr) => r + seq!['#'] + fr,
        None => r,
    };
    assert(resolved_link(link, env) == inner);
    assert(rewritten_css(t, css_url, base, out, rs, assets) == css_replacement(link, env) + Seq::<char>::empty());
    assert(seq!['u', 'r', 'l', '(', '\''] + inner + seq!['\'', ')'] =~= seq!['u', 'r', 'l', '(', '\''] + r + match v.fragment {
        Some(fr) => seq!['#'] + fr,
        None => Seq::<char>::empty(),
    } + seq!['\'', ')']);
}

proof fn lemma_quote_run_end_to(t: Seq<char>, i: int, e: int)
    requires
        0 <= i <= e < t.len(),
        forall|k: int| i <= k < e ==> t[k] != '"' && t[k] != '\'',
        t[e] == '"',
    ensures
        quote_run_end(t, i) == e,
    decreases e - i,
{
    if i < e {
        lemma_quote_run_end_to(t, i + 1, e);
    }
}

/// A page's link is resolved against the page's own URL: a page that has a
/// local file and holds `href="L"` comes out as `href="R"`, where R is the
/// relative path (with `/` separators) from the directory of the page's
/// file to the file of the URL that L resolves to against the page,
/// followed by that URL's fragment, when that URL is on the site's host and
/// has a file.
pub proof fn law_html_links_resolve_against_page(
    link: Seq<char>,
    page: UrlView,
    base: UrlView,
    out: Seq<char>,
    rs: bool,
    assets: Map<Seq<char>, Seq<char>>,
    cur: Seq<char>,
    v: UrlView,
    f: Seq<char>,
    rel: Seq<char>,
)
    requires
        link.len() > 0,
        forall|k: int| 0 <= k < link.len() ==> link[k] != '"' && link[k] != '\'',
        !starts_with(link, "data:"@),
        !starts_with(link, "mailto:"@),
        !starts_with(link, "tel:"@),
        local_path_for(page, base, out, rs, None) == Some(cur),
        spec_url_join(page, link) == Some(v),
        v.host == base.host,
        !assets.contains_key(v.href),
        local_path_for(v, base, out, rs, None) == Some(f),
        spec_diff_paths(f, current_dir_for(cur, out)) == Some(rel),
        rel.len() > 0,
    ensures
        rewritten_html(seq!['h', 'r', 'e', 'f', '=', '"'] + link + seq!['"'], page, base, out, rs, assets)
            == seq!['h', 'r', 'e', 'f', '=', '"'] + slashes(rel) + match v.fragment {
                Some(fr) => seq!['#'] + fr,
                None => Seq::<char>::empty(),
            } + seq!['"'],
{
    let t = seq!['h', 'r', 'e', 'f', '=', '"'] + link + seq!['"'];
    let env = LinkEnv { page, base, out_dir: out, rs, assets, cur_dir: current_dir_for(cur, out) };
    let e: int = 6 + link.len() as int;
    assert forall|k: int| 6 <= k < e implies t[k] != '"' && t[k] != '\'' by {
        assert(t[k] == link[k - 6]);
    }
    assert(t[e] == '"');
    lemma_quote_run_end_to(t, 6, e);
    assert(!is_ws('=') && !is_ws('"'));
    assert(skip_ws(t, 4) == 4);
    assert(skip_ws(t, 5) == 5);
    assert(value_at(t, 5) == Some((6int, e, e + 1)));
    assert(after_name(t, 4) == Some((6int, e, e + 1)));
    let hw = seq!['h', 'r', 'e', 'f'];
    assert(keyword_at(t, 0, hw)) by {
        assert forall|j: int| #![trigger hw[j]] 0 <= j < 4 implies folds_to(t[0 + j], hw[j]) by {
            assert(t[j] == hw[j]);
        }
    }
    assert(attr_names()[0] == seq!['h', 'r', 'e', 'f']);
    reveal_with_fuel(attr_match_from, 2);
    assert(attr_match_at(t, 0) == Some((4int, 6int, e, e + 1)));
    assert(t.subrange(0, 4) =~= seq!['h', 'r', 'e', 'f']);
    assert(t.subrange(6, e) =~= link);
    assert(rewrite_attrs_from(t, e + 1, env) == Seq::<char>::empty());
    assert(map_get(assets, v.href) is None);
    assert(slashes(rel).len() == rel.len());
    assert(local_target(link, env) == Some((v, f, slashes(rel))));
    let r = slashes(rel);
    let inner = match v.fragment {
        Some(fr) => r + seq!['#'] + fr,
        None => r,
    };
    assert(resolved_link(link, env) == inner);
    assert(link_value(link, env) == inner);
    assert(!ascii_ci_word(seq!['h', 'r', 'e', 'f'], srcset_word()));
    assert(rewritten_html(t, page, base, out, rs, assets)
        == attr_replacement(t, 0, (4int, 6int, e, e + 1), env) + Seq::<char>::empty());
    assert(seq!['h', 'r', 'e', 'f'] + seq!['=', '"'] + inner + seq!['"'] =~= seq!['h', 'r', 'e', 'f', '=', '"'] + r
        + match v.fragment {
            Some(fr) => seq!['#'] + fr,
            None => Seq::<char>::empty(),
        } + seq!['"']);
}

/// The URL of a directory, or of a page with no extension, is stored as
/// `index.html` when it has no query and no extension is forced.
pub proof fn law_directories_become_index_html(
    u: UrlView,
    base: UrlView,
    out: Seq<char>,
    rs: bool,
)
    requires
        host_in_scope(seq_or_empty(u.host), seq_or_empty(base.host)),
        names_directory(u.path, rs, None),
        u.query is None,
    ensures
        local_path_for(u, base, out, rs, None) matches Some(p)
            && ends_with(p, seq!['i', 'n', 'd', 'e', 'x', '.', 'h', 't', 'm', 'l']),
{
    let path = trim_leading_slashes(u.path);
    let dir = if rs {
        push_each(out, split_on(path, '/'), true, true)
    } else {
        push_path(out, path)
    };
    assert(query_suffix(u.query) =~= Seq::<char>::empty());
    assert(index_stem() + Seq::<char>::empty() =~= index_stem());
    assert(last_dot(index_stem()) == -1) by {
        reveal_with_fuel(last_dot, 6);
    }
    assert(stem_and_extension(index_stem()).0 == index_stem());
    assert(with_extension(index_stem(), html_ext()) =~= seq!['i', 'n', 'd', 'e', 'x', '.', 'h', 't', 'm', 'l']);
    lemma_push_path_extends(dir, seq!['i', 'n', 'd', 'e', 'x', '.', 'h', 't', 'm', 'l']);
}

/// A forced extension is the extension of the stored file: the file name
/// ends with `.` and that extension.
pub proof fn law_forced_extension_is_kept(
    u: UrlView,
    base: UrlView,
    out: Seq<char>,
    rs: bool,
    e: Seq<char>,
)
    requires
        e.len() > 0,
    ensures
        local_path_for(u, base, out, rs, Some(e)) matches Some(p) ==> ends_with(p, seq!['.'] + e),
{
    let path = trim_leading_slashes(u.path);
    let q = query_suffix(u.query);
    if host_in_scope(seq_or_empty(u.host), seq_or_empty(base.host)) {
        if names_directory(u.path, rs, Some(e)) {
            let dir = if rs {
                push_each(out, split_on(path, '/'), true, true)
            } else {
                push_path(out, path)
            };
            let name = index_stem() + q;
            let f = with_extension(name, e);
            assert(f == stem_and_extension(name).0 + seq!['.'] + e);
            lemma_push_path_extends(dir, f);
            let p = push_path(dir, f);
            assert(p.skip(p.len() - (e.len() + 1)) =~= seq!['.'] + e) by {
                assert(p.skip(p.len() - f.len()) == f);
            }
        } else {
            let parts = split_on(path, '/');
            let dir = push_each(out, parts.drop_last(), rs, false);
            let se = stem_and_extension(file_segment(path, rs));
            let f = se.0 + suffix_for(q, e) + seq!['.'] + e;
            lemma_push_path_extends(dir, f);
            let p = push_path(dir, f);
            assert(p.skip(p.len() - (e.len() + 1)) =~= seq!['.'] + e) by {
                assert(p.skip(p.len() - f.len()) == f);
            }
        }
    }
}

/// The byte ranges of an asset cover it from the first byte to the last,
/// each range starting right after the previous one ends; there are four
/// when the server accepts ranges and the asset is above 1 000 000 bytes,
/// else one.
pub proof fn law_chunks_cover_asset(len: u64, ranges: bool)
    requires
        len > 0,
    ensures
        chunk_count(len, ranges) == if ranges && len > 1_000_000 { 4u64 } else { 1u64 },
        chunk_start(len, chunk_count(len, ranges), 0) == 0,
        chunk_end(len, chunk_count(len, ranges), chunk_count(len, ranges) - 1) == len - 1,
        forall|i: int| 0 <= i < chunk_count(len, ranges) - 1 ==>
            #[trigger] chunk_end(len, chunk_count(len, ranges), i) + 1 == chunk_start(len, chunk_count(len, ranges), i + 1),
        forall|i: int| 0 <= i < chunk_count(len, ranges) ==>
            chunk_start(len, chunk_count(len, ranges), i) <= #[trigger] chunk_end(len, chunk_count(len, ranges), i),
{
    let n = chunk_count(len, ranges);
    assert forall|i: int| 0 <= i < n - 1 implies
        #[trigger] chunk_end(len, n, i) + 1 == chunk_start(len, n, i + 1) by {
        assert((i + 1) * chunk_size(len, n) == i * chunk_size(len, n) + chunk_size(len, n)) by (nonlinear_arith);
    }
    assert forall|i: int| 0 <= i < n implies
        chunk_start(len, n, i) <= #[trigger] chunk_end(len, n, i) by {
        if n > 1 {
            let c = chunk_size(len, n);
            assert(c >= 250_000) by (nonlinear_arith)
                requires c == len as int / 4, len > 1_000_000;
            assert(i * c <= 3 * c) by (nonlinear_arith)
                requires 0 <= i <= 3, c >= 0;
            assert(4 * c <= len) by (nonlinear_arith)
                requires c == len as int / 4;
            if i == 3 {
                assert(i * c == 3 * c);
            }
        } else {
            assert(i == 0);
            assert(chunk_start(len, n, i) == 0);
        }
    }
}

/// An asset is only downloaded when its file does not exist, the file limit
/// is not reached, it is not a dry run, and its announced length is within
/// the size limits (an unknown length, 0, passes the lower one).
pub proof fn law_download_respects_limits(
    exists: bool,
    file_count: usize,
    max_files: usize,
    dry_run: bool,
    len: u64,
    max_size: u64,
    min_size: u64,
)
    ensures
        asset_action(exists, file_count, max_files, dry_run, len, max_size, min_size) is Download <==> (!exists
            && !(max_files > 0 && file_count >= max_files) && !dry_run && len <= max_size
            && (len == 0 || len >= min_size)),
{
}

/// The assets fetched for a document hold each URL once, are all on the
/// site's host, and include every URL of the document on that host.
pub proof fn law_unique_on_host(s: Seq<UrlView>, base: UrlView)
    ensures
        forall|i: int, j: int| 0 <= i < j < unique_on_host(s, base).len() ==>
            (#[trigger] unique_on_host(s, base)[i]).href != (#[trigger] unique_on_host(s, base)[j]).href,
        forall|i: int| 0 <= i < unique_on_host(s, base).len() ==> (#[trigger] unique_on_host(s, base)[i]).host == base.host,
        forall|i: int| 0 <= i < s.len() && (#[trigger] s[i]).host == base.host ==> has_href(unique_on_host(s, base), s[i].href),
    decreases s.len(),
{
    if s.len() > 0 {
        let prev = unique_on_host(s.drop_last(), base);
        law_unique_on_host(s.drop_last(), base);
        let r = unique_on_host(s, base);
        assert forall|i: int| 0 <= i < s.len() && (#[trigger] s[i]).host == base.host implies has_href(r, s[i].href) by {
            if i < s.len() - 1 {
                assert(s.drop_last()[i] == s[i]);
                let k = choose|k: int| 0 <= k < prev.len() && (#[trigger] prev[k]).href == s[i].href;
                assert(r[k] == prev[k]);
            } else {
                if !has_href(prev, s[i].href) {
                    assert(r[prev.len() as int] == s[i]);
                } else {
                    let k = choose|k: int| 0 <= k < prev.len() && (#[trigger] prev[k]).href == s[i].href;
                    assert(r[k] == prev[k]);
                }
            }
        }
        assert forall|i: int, j: int| 0 <= i < j < r.len() implies
            (#[trigger] r[i]).href != (#[trigger] r[j]).href by {
            if j == prev.len() {
                assert(r[i] == prev[i]);
                assert(!has_href(prev, r[j].href));
            }
        }
    }
}

/// Recording a file for a URL and then looking the URL up gives that file;
/// other URLs keep theirs.
pub proof fn law_asset_map_read_after_write(m: Map<Seq<char>, Seq<char>>, k: Seq<char>, v: Seq<char>, other: Seq<char>)
    requires
        other != k,
    ensures
        map_get(m.insert(k, v), k) == Some(v),
        map_get(m.insert(k, v), other) == map_get(m, other),
{
}

/// A page or stylesheet without a local file of its own is left as it is.
pub proof fn law_unmapped_documents_unchanged(
    text: Seq<char>,
    doc: UrlView,
    base: UrlView,
    out: Seq<char>,
    rs: bool,
    assets: Map<Seq<char>, Seq<char>>,
)
    requires
        local_path_for(doc, base, out, rs, None) is None,
    ensures
        rewritten_html(text, doc, base, out, rs, assets) == text,
        rewritten_css(text, doc, base, out, rs, assets) == text,
{
}

proof fn lemma_no_attr_unchanged(t: Seq<char>, pos: int, env: LinkEnv)
    requires
        0 <= pos <= t.len(),
        forall|p: int| 0 <= p < t.len() ==> #[trigger] attr_match_at(t, p) is None,
    ensures
        rewrite_attrs_from(t, pos, env) == t.skip(pos),
    decreases t.len() - pos,
{
    if pos < t.len() {
        lemma_no_attr_unchanged(t, pos + 1, env);
        assert(attr_match_at(t, pos) is None);
        assert(t.skip(pos) =~= seq![t[pos]] + t.skip(pos + 1));
    } else {
        assert(t.skip(pos) =~= Seq::<char>::empty());
    }
}

/// HTML without any link attribute comes out as it went in.
pub proof fn law_html_without_links_unchanged(t: Seq<char>, env: LinkEnv)
    requires
        forall|p: int| 0 <= p < t.len() ==> #[trigger] attr_match_at(t, p) is None,
    ensures
        rewrite_attrs_from(t, 0, env) == t,
{
    lemma_no_attr_unchanged(t, 0, env);
    assert(t.skip(0) =~= t);
}

/// `data:`, `mailto:` and `tel:` links, and links that leave the site's
/// host or do not resolve, are kept as they are.
pub proof fn law_foreign_links_kept(link: Seq<char>, env: LinkEnv)
    ensures
        starts_with(link, "data:"@) || starts_with(link, "mailto:"@) || starts_with(link, "tel:"@)
            ==> link_value(link, env) == link,
        (match spec_url_join(env.page, link) {
            Some(t) => t.host != env.base.host,
            None => true,
        }) ==> link_value(link, env) == link && resolved_link(link, env) == link,
{
}

/// A `data:` reference in a stylesheet is only re-quoted, never resolved.
pub proof fn law_css_data_urls_kept(link: Seq<char>, env: LinkEnv)
    requires
        starts_with(link, "data:"@),
    ensures
        css_replacement(link, env) == seq!['u', 'r', 'l', '(', '\''] + link + seq!['\'', ')'],
{
}

} // verus!
