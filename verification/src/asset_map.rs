//! The local files already chosen for asset URLs.
use vstd::prelude::*;
use crate::url_model::WebUrl;
use crate::text::{str_eq, opt_view};

verus! {

/// The map that a sequence of insertions builds, later ones winning.
pub open spec fn map_of(entries: Seq<(Seq<char>, Seq<char>)>) -> Map<Seq<char>, Seq<char>>
    decreases entries.len(),
{
    if entries.len() == 0 {
        Map::empty()
    } else {
        map_of(entries.drop_last()).insert(entries.last().0, entries.last().1)
    }
}

/// A map from URLs (by serialization) to local file paths.
pub struct AssetPaths {
    entries: Vec<(String, String)>,
}

impl AssetPaths {
    pub closed spec fn entry_views(&self) -> Seq<(Seq<char>, Seq<char>)> {
        self.entries@.map_values(|e: (String, String)| (e.0@, e.1@))
    }
}

impl View for AssetPaths {
    type V = Map<Seq<char>, Seq<char>>;

    closed spec fn view(&self) -> Map<Seq<char>, Seq<char>> {
        map_of(self.entry_views())
    }
}

/// The path a map gives for a key, if any.
pub open spec fn map_get(m: Map<Seq<char>, Seq<char>>, k: Seq<char>) -> Option<Seq<char>> {
    if m.contains_key(k) {
        Some(m[k])
    } else {
        None
    }
}

proof fn lemma_map_of_skips(entries: Seq<(Seq<char>, Seq<char>)>, i: int, k: Seq<char>)
    requires
        0 <= i <= entries.len(),
        forall|j: int| i <= j < entries.len() ==> entries[j].0 != k,
    ensures
        map_get(map_of(entries), k) == map_get(map_of(entries.take(i)), k),
    decreases entries.len() - i,
{
    if i < entries.len() {
        lemma_map_of_skips(entries, i + 1, k);
        assert(entries.take(i + 1).drop_last() =~= entries.take(i));
    } else {
        assert(entries.take(i) =~= entries);
    }
}

impl AssetPaths {
    pub fn new() -> (r: AssetPaths)
        ensures
            r@ == Map::<Seq<char>, Seq<char>>::empty(),
    {
        let r = AssetPaths { entries: Vec::new() };
        assert(r.entry_views() =~= Seq::<(Seq<char>, Seq<char>)>::empty());
        r
    }

    /// Records the local file for a URL, replacing any earlier one.
    pub fn insert(&mut self, url: &WebUrl, path: String)
        ensures
            final(self)@ == old(self)@.insert(url@.href, path@),
    {
        let ghost before = self.entry_views();
        self.entries.push((url.as_str().to_string(), path));
        assert(self.entry_views().drop_last() =~= before);
    }

    /// The local file recorded for a URL.
    pub fn get(&self, url: &WebUrl) -> (r: Option<String>)
        ensures
            opt_view(r) == map_get(self@, url@.href),
    {
        let key = url.as_str();
        let ghost ev = self.entry_views();
        let mut i: usize = self.entries.len();
        while i > 0
            invariant
                i <= self.entries.len(),
                ev == self.entry_views(),
                key@ == url@.href,
                ev.len() == self.entries.len(),
                forall|j: int| i <= j < ev.len() ==> ev[j].0 != key@,
            decreases i,
        {
            let e = &self.entries[i - 1];
            assert(ev[i - 1] == (e.0@, e.1@));
            if str_eq(e.0.as_str(), key) {
                proof {
                    lemma_map_of_skips(ev, i as int, key@);
                    assert(ev.take(i as int).drop_last() =~= ev.take(i - 1));
                    assert(ev.take(i as int).last() == ev[i - 1]);
                    assert(map_of(ev.take(i as int)) == map_of(ev.take(i - 1)).insert(ev[i - 1].0, ev[i - 1].1));
                    assert(map_of(ev.take(i as int)).contains_key(key@));
                    assert(map_of(ev.take(i as int))[key@] == e.1@);
                }
                let r = e.1.clone();
                return Some(r);
            }
            i = i - 1;
        }
        proof {
            lemma_map_of_skips(ev, 0, key@);
            assert(ev.take(0) =~= Seq::<(Seq<char>, Seq<char>)>::empty());
        }
        None
    }
}

} // verus!
