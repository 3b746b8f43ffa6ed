//! A process-lifetime cache of source file contents, keyed by path.
//!
//! Populated lazily on first access; entries are never evicted and never
//! revalidated, deliberately: source files are assumed immutable while a
//! fixed binary is being debugged.  The disk read itself is an effect of
//! the surrounding binary, which hands in what the disk gave (or nothing,
//! for a path that does not exist); everything else is decided here.

use vstd::prelude::*;

verus! {

/// The mathematical contents of the cache: a map from path to file text.
pub open spec fn cache_map(entries: Seq<(String, String)>) -> Map<Seq<char>, Seq<char>>
    decreases entries.len(),
{
    if entries.len() == 0 {
        Map::empty()
    } else {
        cache_map(entries.drop_last()).insert(entries.last().0@, entries.last().1@)
    }
}

/// What a fetch returns over the model: the cached text when the path is
/// cached, otherwise whatever the disk gave.
pub open spec fn fetched_contents(
    m: Map<Seq<char>, Seq<char>>,
    path: Seq<char>,
    disk: Option<Seq<char>>,
) -> Option<Seq<char>> {
    if m.dom().contains(path) {
        Some(m[path])
    } else {
        disk
    }
}

/// The cache after a fetch: a miss that the disk answered is recorded;
/// nothing else changes, and nothing is ever removed.
pub open spec fn cache_after(
    m: Map<Seq<char>, Seq<char>>,
    path: Seq<char>,
    disk: Option<Seq<char>>,
) -> Map<Seq<char>, Seq<char>> {
    if m.dom().contains(path) {
        m
    } else {
        match disk {
            Some(text) => m.insert(path, text),
            None => m,
        }
    }
}

/// The view of what the disk handed in.
pub open spec fn disk_view(disk: Option<String>) -> Option<Seq<char>> {
    match disk {
        Some(text) => Some(text@),
        None => None,
    }
}

/// The cache is pure: once a fetch of a path has produced contents, every
/// later fetch of that path produces identical contents, whatever the disk
/// would say by then.
pub proof fn lemma_cache_pure(
    m: Map<Seq<char>, Seq<char>>,
    path: Seq<char>,
    first_disk: Option<Seq<char>>,
    later_disk: Option<Seq<char>>,
)
    requires
        fetched_contents(m, path, first_disk) is Some,
    ensures
        fetched_contents(cache_after(m, path, first_disk), path, later_disk) == fetched_contents(
            m,
            path,
            first_disk,
        ),
{
}

/// A fetch of a path that is neither cached nor on disk returns nothing
/// and caches nothing: the unavailable result is an absent value, never a
/// failure, and it is never recorded.
pub proof fn lemma_cache_unavailable(m: Map<Seq<char>, Seq<char>>, path: Seq<char>)
    requires
        !m.dom().contains(path),
    ensures
        fetched_contents(m, path, None) is None,
        cache_after(m, path, None) == m,
{
}

/// The path-keyed source cache.
pub struct SourceCache {
    entries: Vec<(String, String)>,
}

impl View for SourceCache {
    type V = Map<Seq<char>, Seq<char>>;

    closed spec fn view(&self) -> Map<Seq<char>, Seq<char>> {
        cache_map(self.entries@)
    }
}

/// A path is in the model exactly when some entry holds it.
proof fn lemma_cache_map_contains(entries: Seq<(String, String)>, path: Seq<char>)
    ensures
        cache_map(entries).dom().contains(path) <==> exists|i: int|
            0 <= i < entries.len() && (#[trigger] entries[i]).0@ == path,
    decreases entries.len(),
{
    if entries.len() > 0 {
        lemma_cache_map_contains(entries.drop_last(), path);
        let prefix = entries.drop_last();
        if cache_map(entries).dom().contains(path) {
            if entries.last().0@ != path {
                let i = choose|i: int|
                    0 <= i < prefix.len() && (#[trigger] prefix[i]).0@ == path;
                assert(entries[i].0@ == path);
            } else {
                assert(entries[entries.len() - 1].0@ == path);
            }
        }
        if exists|i: int| 0 <= i < entries.len() && (#[trigger] entries[i]).0@ == path {
            let i = choose|i: int| 0 <= i < entries.len() && (#[trigger] entries[i]).0@ == path;
            if i < entries.len() - 1 {
                assert(prefix[i].0@ == path);
            }
        }
    }
}

/// With unique keys, the model maps each entry's path to that entry's
/// text.
proof fn lemma_cache_map_at(entries: Seq<(String, String)>, k: int)
    requires
        0 <= k < entries.len(),
        forall|i: int, j: int|
            0 <= i < entries.len() && 0 <= j < entries.len() && i != j ==> (
            #[trigger] entries[i]).0@ != (#[trigger] entries[j]).0@,
    ensures
        cache_map(entries).dom().contains(entries[k].0@),
        cache_map(entries)[entries[k].0@] == entries[k].1@,
    decreases entries.len(),
{
    let prefix = entries.drop_last();
    if k == entries.len() - 1 {
    } else {
        assert(forall|i: int, j: int|
            0 <= i < prefix.len() && 0 <= j < prefix.len() && i != j ==> (
            #[trigger] prefix[i]).0@ != (#[trigger] prefix[j]).0@) by {
            assert(forall|i: int| 0 <= i < prefix.len() ==> prefix[i] == entries[i]);
        }
        lemma_cache_map_at(prefix, k);
        assert(entries.last().0@ != entries[k].0@);
    }
}

impl SourceCache {
    /// Unique keys, so the scan order cannot matter.
    pub closed spec fn wf(&self) -> bool {
        forall|i: int, j: int|
            0 <= i < self.entries@.len() && 0 <= j < self.entries@.len() && i != j ==> (
            #[trigger] self.entries@[i]).0@ != (#[trigger] self.entries@[j]).0@
    }

    /// An empty cache.
    pub fn new() -> (c: SourceCache)
        ensures
            c.wf(),
            c@ == Map::<Seq<char>, Seq<char>>::empty(),
    {
        SourceCache { entries: Vec::new() }
    }

    /// Fetches the contents for `path`.  `disk` is what a read of the path
    /// just produced: the text for a file that exists, nothing for one
    /// that does not.  A cached path answers from the cache and ignores
    /// the disk; a miss with text records it for the session's lifetime; a
    /// miss without text stays absent and is never an error.
    pub fn get_source(&mut self, path: &String, disk: Option<String>) -> (r: Option<String>)
        requires
            old(self).wf(),
        ensures
            final(self).wf(),
            final(self)@ == cache_after(old(self)@, path@, disk_view(disk)),
            match r {
                Some(text) => fetched_contents(old(self)@, path@, disk_view(disk)) == Some(text@),
                None => fetched_contents(old(self)@, path@, disk_view(disk)) is None,
            },
    {
        let n = self.entries.len();
        let mut i: usize = 0;
        while i < n
            invariant
                0 <= i <= n,
                n == self.entries@.len(),
                old(self).wf(),
                *self == *old(self),
                forall|k: int| 0 <= k < i ==> (#[trigger] self.entries@[k]).0@ != path@,
            decreases n - i,
        {
            if self.entries[i].0 == *path {
                proof {
                    lemma_cache_map_at(self.entries@, i as int);
                }
                return Some(self.entries[i].1.clone());
            }
            i = i + 1;
        }
        proof {
            lemma_cache_map_contains(self.entries@, path@);
            assert(!self@.dom().contains(path@));
        }
        match disk {
            Some(text) => {
                let out = text.clone();
                let ghost before = self.entries@;
                self.entries.push((path.clone(), text));
                proof {
                    assert(self.entries@.drop_last() =~= before);
                    assert(self.entries@.last().0@ == path@);
                    assert(self@ == cache_map(before).insert(path@, self.entries@.last().1@));
                }
                Some(out)
            },
            None => None,
        }
    }
}

} // verus!
