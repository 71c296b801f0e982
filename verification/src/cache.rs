//! The result cache: for each file path the modification time at which the
//! file was analysed and the comments that were confirmed then.
//!
//! An entry answers only for the modification time it was stored with. The
//! cache holds each path once; storing a path again replaces its entry.
//! The entries stand in the order in which their paths first came, so that
//! what is handed out for the cache file does not depend on a hasher.

use crate::text::str_equal;
use crate::types::{comments_view, duplicate_comments, CacheEntry, CacheEntryView, CommentInfo, CommentInfoView};
use vstd::prelude::*;
use vstd::string::*;

verus! {

/// The map that a list of stored entries stands for. Where a path occurs
/// more than once, the entry that comes last counts.
pub open spec fn entries_map(entries: Seq<(String, CacheEntry)>) -> Map<Seq<char>, CacheEntryView>
    decreases entries.len(),
{
    if entries.len() == 0 {
        Map::empty()
    } else {
        entries_map(entries.drop_last()).insert(entries.last().0@, entries.last().1@)
    }
}

/// No path occurs twice in the list.
pub open spec fn distinct_paths(entries: Seq<(String, CacheEntry)>) -> bool {
    forall|i: int, j: int|
        0 <= i < j < entries.len() ==> (#[trigger] entries[i]).0@ != (#[trigger] entries[j]).0@
}

/// What the cache answers for a file with the given modification time: the
/// stored comments if an entry exists and carries that very time, else nothing.
pub open spec fn cached(
    map: Map<Seq<char>, CacheEntryView>,
    path: Seq<char>,
    last_modified: u64,
) -> Option<Seq<CommentInfoView>> {
    if map.contains_key(path) && map[path].last_modified == last_modified {
        Some(map[path].redundant_comments)
    } else {
        None
    }
}

/// A path is a key of the map exactly if it occurs in the list.
pub proof fn lemma_entries_map_keys(entries: Seq<(String, CacheEntry)>, path: Seq<char>)
    ensures
        entries_map(entries).contains_key(path) <==> exists|i: int|
            0 <= i < entries.len() && (#[trigger] entries[i]).0@ == path,
    decreases entries.len(),
{
    if entries.len() > 0 {
        let front = entries.drop_last();
        lemma_entries_map_keys(front, path);
        if entries_map(entries).contains_key(path) {
            if entries.last().0@ == path {
                assert(entries[entries.len() - 1].0@ == path);
            } else {
                let i = choose|i: int| 0 <= i < front.len() && (#[trigger] front[i]).0@ == path;
                assert(entries[i].0@ == path);
            }
        }
        if exists|i: int| 0 <= i < entries.len() && (#[trigger] entries[i]).0@ == path {
            let i = choose|i: int| 0 <= i < entries.len() && (#[trigger] entries[i]).0@ == path;
            if i < entries.len() - 1 {
                assert(front[i].0@ == path);
            }
        }
    }
}

/// In a list without repeated paths, the map gives each path its own entry.
pub proof fn lemma_entries_map_value(entries: Seq<(String, CacheEntry)>, i: int)
    requires
        distinct_paths(entries),
        0 <= i < entries.len(),
    ensures
        entries_map(entries).contains_key(entries[i].0@),
        entries_map(entries)[entries[i].0@] == entries[i].1@,
    decreases entries.len(),
{
    let front = entries.drop_last();
    if i < entries.len() - 1 {
        assert(distinct_paths(front)) by {
            assert forall|a: int, b: int| 0 <= a < b < front.len() implies (#[trigger] front[a]).0@
                != (#[trigger] front[b]).0@ by {
                assert(entries[a].0@ != entries[b].0@);
            }
        }
        lemma_entries_map_value(front, i);
        assert(front[i] == entries[i]);
        assert(entries[i].0@ != entries[entries.len() - 1].0@);
    }
}

/// Replacing the entry of a path in place is the same as inserting it into the map.
pub proof fn lemma_entries_map_update(
    entries: Seq<(String, CacheEntry)>,
    i: int,
    item: (String, CacheEntry),
)
    requires
        distinct_paths(entries),
        0 <= i < entries.len(),
        entries[i].0@ == item.0@,
    ensures
        entries_map(entries.update(i, item)) == entries_map(entries).insert(item.0@, item.1@),
        distinct_paths(entries.update(i, item)),
    decreases entries.len(),
{
    let updated = entries.update(i, item);
    let front = entries.drop_last();
    assert forall|a: int, b: int| 0 <= a < b < updated.len() implies (#[trigger] updated[a]).0@
        != (#[trigger] updated[b]).0@ by {
        assert(entries[a].0@ != entries[b].0@);
    }
    if i == entries.len() - 1 {
        assert(updated.drop_last() =~= front);
        assert(entries_map(updated) =~= entries_map(entries).insert(item.0@, item.1@));
    } else {
        assert(distinct_paths(front)) by {
            assert forall|a: int, b: int| 0 <= a < b < front.len() implies (#[trigger] front[a]).0@
                != (#[trigger] front[b]).0@ by {
                assert(entries[a].0@ != entries[b].0@);
            }
        }
        lemma_entries_map_update(front, i, item);
        assert(updated.drop_last() =~= front.update(i, item));
        assert(updated.last() == entries.last());
        assert(entries[i].0@ != entries[entries.len() - 1].0@);
        assert(entries_map(updated) =~= entries_map(entries).insert(item.0@, item.1@));
    }
}

/// The result cache.
#[derive(Debug)]
pub struct Cache {
    entries: Vec<(String, CacheEntry)>,
}

impl View for Cache {
    type V = Map<Seq<char>, CacheEntryView>;

    closed spec fn view(&self) -> Map<Seq<char>, CacheEntryView> {
        entries_map(self.entries@)
    }
}

impl Cache {
    /// The cache holds each path once.
    #[verifier::type_invariant]
    spec fn wf(&self) -> bool {
        distinct_paths(self.entries@)
    }

    /// A cache without entries.
    pub fn new() -> (res: Cache)
        ensures
            res@ == Map::<Seq<char>, CacheEntryView>::empty(),
    {
        Cache { entries: Vec::new() }
    }

    /// The number of files the cache knows.
    pub fn len(&self) -> (res: usize)
        ensures
            res == self@.dom().len(),
    {
        proof {
            use_type_invariant(self);
            lemma_entries_map_len(self.entries@);
        }
        self.entries.len()
    }

    fn position(&self, path: &str) -> (res: Option<usize>)
        ensures
            match res {
                Some(i) => i < self.entries@.len() && self.entries@[i as int].0@ == path@
                    && self@.contains_key(path@) && self@[path@] == self.entries@[i as int].1@,
                None => !self@.contains_key(path@),
            },
    {
        proof {
            use_type_invariant(self);
        }
        let mut i: usize = 0;
        while i < self.entries.len()
            invariant
                distinct_paths(self.entries@),
                i <= self.entries@.len(),
                forall|j: int| 0 <= j < i ==> (#[trigger] self.entries@[j]).0@ != path@,
            decreases self.entries.len() - i,
        {
            if str_equal(self.entries[i].0.as_str(), path) {
                proof {
                    lemma_entries_map_value(self.entries@, i as int);
                }
                return Some(i);
            }
            i += 1;
        }
        proof {
            lemma_entries_map_keys(self.entries@, path@);
        }
        None
    }

    /// The comments stored for `path`, if its entry carries exactly the
    /// modification time `last_modified`. A missing entry and an entry of
    /// another time are both a miss.
    pub fn get(&self, path: &str, last_modified: u64) -> (res: Option<Vec<CommentInfo>>)
        ensures
            match res {
                Some(list) => cached(self@, path@, last_modified) == Some(comments_view(list@)),
                None => cached(self@, path@, last_modified) is None,
            },
    {
        match self.position(path) {
            Some(i) => {
                if self.entries[i].1.last_modified == last_modified {
                    Some(duplicate_comments(&self.entries[i].1.redundant_comments))
                } else {
                    None
                }
            },
            None => None,
        }
    }

    /// Stores the comments confirmed for `path` at `last_modified`, in place
    /// of whatever was stored for that path.
    pub fn put(&mut self, path: String, last_modified: u64, results: Vec<CommentInfo>)
        ensures
            final(self)@ == old(self)@.insert(
                path@,
                CacheEntryView { last_modified, redundant_comments: comments_view(results@) },
            ),
    {
        proof {
            use_type_invariant(&*self);
        }
        let found = self.position(path.as_str());
        let entry = CacheEntry { last_modified, redundant_comments: results };
        let ghost before = self.entries@;
        let mut entries: Vec<(String, CacheEntry)> = Vec::new();
        core::mem::swap(&mut self.entries, &mut entries);
        match found {
            Some(i) => {
                proof {
                    lemma_entries_map_update(before, i as int, (path, entry));
                }
                entries.set(i, (path, entry));
            },
            None => {
                proof {
                    lemma_entries_map_keys(before, path@);
                    assert(before.push((path, entry)).drop_last() =~= before);
                    assert(distinct_paths(before.push((path, entry))));
                }
                entries.push((path, entry));
            },
        }
        core::mem::swap(&mut self.entries, &mut entries);
    }

    /// Builds the cache from what was read from its file. Nothing readable
    /// (`None`: the file is missing or malformed) gives an empty cache; of
    /// two entries for one path the later one counts.
    pub fn load(stored: Option<Vec<(String, CacheEntry)>>) -> (res: Cache)
        ensures
            res@ == match stored {
                Some(entries) => entries_map(entries@),
                None => Map::<Seq<char>, CacheEntryView>::empty(),
            },
    {
        let mut cache = Cache::new();
        match stored {
            None => cache,
            Some(entries) => {
                let mut i: usize = 0;
                while i < entries.len()
                    invariant
                        i <= entries.len(),
                        cache@ == entries_map(entries@.take(i as int)),
                    decreases entries.len() - i,
                {
                    proof {
                        assert(entries@.take(i + 1).drop_last() =~= entries@.take(i as int));
                    }
                    let list = duplicate_comments(&entries[i].1.redundant_comments);
                    cache.put(entries[i].0.clone(), entries[i].1.last_modified, list);
                    i += 1;
                }
                assert(entries@.take(i as int) =~= entries@);
                cache
            },
        }
    }

    /// The entries to write to the cache file: every path once, with its entry.
    pub fn save(&self) -> (res: Vec<(String, CacheEntry)>)
        ensures
            distinct_paths(res@),
            entries_map(res@) == self@,
    {
        let mut out: Vec<(String, CacheEntry)> = Vec::new();
        let mut i: usize = 0;
        while i < self.entries.len()
            invariant
                i <= self.entries@.len(),
                out@.len() == i,
                forall|j: int|
                    0 <= j < i ==> (#[trigger] out@[j]).0@ == self.entries@[j].0@ && out@[j].1@
                        == self.entries@[j].1@,
            decreases self.entries.len() - i,
        {
            let list = duplicate_comments(&self.entries[i].1.redundant_comments);
            let entry = CacheEntry {
                last_modified: self.entries[i].1.last_modified,
                redundant_comments: list,
            };
            out.push((self.entries[i].0.clone(), entry));
            i += 1;
        }
        proof {
            use_type_invariant(self);
            lemma_entries_map_same(out@, self.entries@);
        }
        out
    }
}

/// Lists that agree entry by entry in value stand for the same map.
pub proof fn lemma_entries_map_same(a: Seq<(String, CacheEntry)>, b: Seq<(String, CacheEntry)>)
    requires
        a.len() == b.len(),
        forall|j: int|
            0 <= j < a.len() ==> (#[trigger] a[j]).0@ == b[j].0@ && a[j].1@ == b[j].1@,
    ensures
        entries_map(a) == entries_map(b),
        distinct_paths(b) ==> distinct_paths(a),
    decreases a.len(),
{
    if a.len() > 0 {
        lemma_entries_map_same(a.drop_last(), b.drop_last());
        assert(a[a.len() - 1].0@ == b[a.len() - 1].0@);
    }
    if distinct_paths(b) {
        assert forall|i: int, j: int| 0 <= i < j < a.len() implies (#[trigger] a[i]).0@ != (
        #[trigger] a[j]).0@ by {
            assert(b[i].0@ != b[j].0@);
        }
    }
}

/// A list without repeated paths stands for a map with as many keys as it has entries.
pub proof fn lemma_entries_map_len(entries: Seq<(String, CacheEntry)>)
    requires
        distinct_paths(entries),
    ensures
        entries_map(entries).dom().finite(),
        entries_map(entries).dom().len() == entries.len(),
    decreases entries.len(),
{
    if entries.len() > 0 {
        let front = entries.drop_last();
        assert(distinct_paths(front)) by {
            assert forall|a: int, b: int| 0 <= a < b < front.len() implies (#[trigger] front[a]).0@
                != (#[trigger] front[b]).0@ by {
                assert(entries[a].0@ != entries[b].0@);
            }
        }
        lemma_entries_map_len(front);
        lemma_entries_map_keys(front, entries.last().0@);
        if entries_map(front).contains_key(entries.last().0@) {
            let i = choose|i: int| 0 <= i < front.len() && (#[trigger] front[i]).0@ == entries.last().0@;
            assert(entries[i].0@ != entries[entries.len() - 1].0@);
        }
        assert(entries_map(entries).dom() =~= entries_map(front).dom().insert(entries.last().0@));
    }
}

/// An entry answers for the modification time it was stored with: a file
/// that has not changed since it was stored is answered from the cache.
pub proof fn lemma_stored_entry_hits(
    map: Map<Seq<char>, CacheEntryView>,
    path: Seq<char>,
    last_modified: u64,
    results: Seq<CommentInfoView>,
)
    ensures
        cached(
            map.insert(path, CacheEntryView { last_modified, redundant_comments: results }),
            path,
            last_modified,
        ) == Some(results),
{
}

/// An entry answers for no other modification time: a file that changed
/// after it was stored is a miss, whatever was stored.
pub proof fn lemma_changed_file_misses(
    map: Map<Seq<char>, CacheEntryView>,
    path: Seq<char>,
    stored_at: u64,
    results: Seq<CommentInfoView>,
    now: u64,
)
    requires
        now != stored_at,
    ensures
        cached(
            map.insert(path, CacheEntryView { last_modified: stored_at, redundant_comments: results }),
            path,
            now,
        ) is None,
{
}

} // verus!
