//! A cache that is held in memory.

use vstd::prelude::*;
use vstd::hash_map::StringHashMap;
use crate::cache::cached;
use crate::cache::all_cached;
use crate::cache::cached_all;
use crate::cache::holdings;
use crate::cache::lookup;
use crate::cache::reset;
use crate::cache::CacheError;
use crate::cache::SongCache;
use crate::song_load::LoadedSong;

verus! {

/// A cache held in memory, kept nowhere else.
pub struct MemCache {
    cache: StringHashMap<LoadedSong>,
    order: Vec<String>,
}

/// The mapping that a list of entries stands for: each path to its song, a later entry
/// in place of an earlier one of the same path.
pub open spec fn map_of_entries(entries: Seq<(String, LoadedSong)>) -> Map<Seq<char>, LoadedSong>
    decreases entries.len(),
{
    if entries.len() == 0 {
        Map::empty()
    } else {
        map_of_entries(entries.drop_last()).insert(entries.last().0@, entries.last().1)
    }
}

/// Whether `entries` lists what `songs` holds: each path once, with its song.
pub open spec fn is_snapshot_of(
    entries: Seq<(String, LoadedSong)>,
    songs: Map<Seq<char>, LoadedSong>,
) -> bool {
    &&& forall|i: int|
        0 <= i < entries.len() ==> songs.contains_key(#[trigger] entries[i].0@)
            && songs[entries[i].0@] == entries[i].1
    &&& forall|path: Seq<char>| #[trigger]
        songs.contains_key(path) ==> exists|i: int|
            0 <= i < entries.len() && #[trigger] entries[i].0@ == path
    &&& forall|i: int, j: int|
        0 <= i < j < entries.len() ==> #[trigger] entries[i].0@ != #[trigger] entries[j].0@
}

proof fn lemma_map_of_entries(entries: Seq<(String, LoadedSong)>)
    ensures
        forall|path: Seq<char>| #[trigger]
            map_of_entries(entries).contains_key(path) <==> exists|i: int|
                0 <= i < entries.len() && #[trigger] entries[i].0@ == path,
        forall|i: int|
            0 <= i < entries.len() && (forall|j: int|
                i < j < entries.len() ==> #[trigger] entries[j].0@ != entries[i].0@)
                ==> map_of_entries(entries)[#[trigger] entries[i].0@] == entries[i].1,
    decreases entries.len(),
{
    if entries.len() > 0 {
        let front = entries.drop_last();
        lemma_map_of_entries(front);
        assert forall|path: Seq<char>| #[trigger]
            map_of_entries(entries).contains_key(path) <==> exists|i: int|
                0 <= i < entries.len() && #[trigger] entries[i].0@ == path by {
            let last = entries.len() - 1;
            assert(entries.last() == entries[last]);
            assert(map_of_entries(entries) == map_of_entries(front).insert(
                entries[last].0@,
                entries[last].1,
            ));
            if map_of_entries(entries).contains_key(path) {
                if path == entries[last].0@ {
                } else {
                    assert(map_of_entries(front).contains_key(path));
                    let i = choose|i: int| 0 <= i < front.len() && #[trigger] front[i].0@ == path;
                    assert(front[i] == entries[i]);
                    assert(entries[i].0@ == path);
                }
            }
            if exists|i: int| 0 <= i < entries.len() && #[trigger] entries[i].0@ == path {
                let i = choose|i: int| 0 <= i < entries.len() && #[trigger] entries[i].0@ == path;
                if i < front.len() {
                    assert(front[i] == entries[i]);
                    assert(front[i].0@ == path);
                    assert(map_of_entries(front).contains_key(path));
                }
            }
        }
        assert forall|i: int|
            0 <= i < entries.len() && (forall|j: int|
                i < j < entries.len() ==> #[trigger] entries[j].0@ != entries[i].0@)
                implies map_of_entries(entries)[#[trigger] entries[i].0@] == entries[i].1 by {
            if i < front.len() {
                assert(entries[entries.len() - 1].0@ != entries[i].0@);
                assert(front[i] == entries[i]);
                assert forall|j: int| i < j < front.len() implies #[trigger] front[j].0@
                    != front[i].0@ by {
                    assert(entries[j].0@ != entries[i].0@);
                }
            }
        }
    }
}

/// A list of what a cache holds stands for what the cache holds: to read it back gives
/// the same mapping.
pub proof fn lemma_snapshot_restores(
    entries: Seq<(String, LoadedSong)>,
    songs: Map<Seq<char>, LoadedSong>,
)
    requires
        is_snapshot_of(entries, songs),
    ensures
        map_of_entries(entries) == songs,
{
    lemma_map_of_entries(entries);
    assert forall|path: Seq<char>| #[trigger]
        map_of_entries(entries).contains_key(path) implies songs.contains_key(path) by {
        let i = choose|i: int| 0 <= i < entries.len() && #[trigger] entries[i].0@ == path;
        assert(songs.contains_key(entries[i].0@));
    }
    assert forall|path: Seq<char>| #[trigger] songs.contains_key(path) implies map_of_entries(
        entries,
    )[path] == songs[path] by {
        let i = choose|i: int| 0 <= i < entries.len() && #[trigger] entries[i].0@ == path;
        assert(songs[entries[i].0@] == entries[i].1);
    }
    assert(map_of_entries(entries) =~= songs);
}

/// In memory, songs that were each cached one after another are cached as `cached_all`
/// says: the cache holds what it held, and each of the songs under its path.
pub proof fn lemma_all_cached_in_memory(
    before: Map<Seq<char>, LoadedSong>,
    list: Seq<LoadedSong>,
    after: Map<Seq<char>, LoadedSong>,
)
    requires
        all_cached::<MemCache>(before, list, after),
    ensures
        after == cached_all(before, list),
{
    let held = choose|held: Seq<Map<Seq<char>, LoadedSong>>|
        {
            &&& #[trigger] holdings(held, before, after)
            &&& held.len() == list.len() + 1
            &&& forall|k: int|
                0 <= k < list.len() ==> exists|cache: &MemCache|
                    #![trigger cache.songs()]
                    cache.songs() == #[trigger] held[k] && cache.song_cached(
                        list[k],
                        held[k + 1],
                        Ok(()),
                    )
        };
    assert forall|k: int| 0 <= k < list.len() implies held[k + 1] == cached(
        #[trigger] held[k],
        list[k],
    ) by {
        let cache = choose|cache: &MemCache|
            #![trigger cache.songs()]
            cache.songs() == held[k] && cache.song_cached(list[k], held[k + 1], Ok(()));
        assert(cache.songs() == held[k]);
    }
    lemma_held_in_memory(held, list, list.len() as int);
    assert(list.take(list.len() as int) =~= list);
}

proof fn lemma_held_in_memory(
    held: Seq<Map<Seq<char>, LoadedSong>>,
    list: Seq<LoadedSong>,
    through: int,
)
    requires
        0 <= through <= list.len(),
        held.len() == list.len() + 1,
        forall|k: int| 0 <= k < list.len() ==> held[k + 1] == cached(#[trigger] held[k], list[k]),
    ensures
        held[through] == cached_all(held[0], list.take(through)),
    decreases through,
{
    if through > 0 {
        lemma_held_in_memory(held, list, through - 1);
        let k = through - 1;
        assert(held[k + 1] == cached(held[k], list[k]));
        assert(list.take(through).drop_last() =~= list.take(k));
        assert(list.take(through).last() == list[k]);
    } else {
        assert(list.take(0) =~= Seq::<LoadedSong>::empty());
    }
}

impl MemCache {
    #[verifier::type_invariant]
    spec fn well_formed(self) -> bool {
        &&& self.order.deep_view().no_duplicates()
        &&& forall|path: Seq<char>|
            self.cache@.contains_key(path) <==> self.order.deep_view().contains(path)
    }

    /// The songs held, by path.
    pub closed spec fn view(&self) -> Map<Seq<char>, LoadedSong> {
        self.cache@
    }

    /// An empty cache.
    pub fn new() -> (cache: Self)
        ensures
            cache@ == Map::<Seq<char>, LoadedSong>::empty(),
    {
        MemCache { cache: StringHashMap::new(), order: Vec::new() }
    }

    /// An empty cache with room for `capacity` songs.
    pub fn with_capacity(capacity: usize) -> (cache: Self)
        ensures
            cache@ == Map::<Seq<char>, LoadedSong>::empty(),
    {
        MemCache { cache: StringHashMap::with_capacity(capacity), order: Vec::new() }
    }

    /// Takes the fields out of `self`, which is left empty.
    fn take(&mut self) -> (parts: (StringHashMap<LoadedSong>, Vec<String>))
        ensures
            parts.0@ == old(self)@,
            parts.1.deep_view().no_duplicates(),
            forall|path: Seq<char>|
                parts.0@.contains_key(path) <==> parts.1.deep_view().contains(path),
            final(self)@ == Map::<Seq<char>, LoadedSong>::empty(),
    {
        let mut taken = MemCache::new();
        core::mem::swap(self, &mut taken);
        proof {
            use_type_invariant(&taken);
        }
        let MemCache { cache, order } = taken;
        (cache, order)
    }

    /// Puts `song` under `path`, in place of what stood there.
    fn put(&mut self, path: String, song: LoadedSong)
        ensures
            final(self)@ == old(self)@.insert(path@, song),
    {
        let (mut cache, mut order) = self.take();
        let ghost before = order.deep_view();
        let ghost key = path@;
        if !cache.contains_key(path.as_str()) {
            order.push(path.clone());
            proof {
                let after = order.deep_view();
                assert(after =~= before.push(key));
                assert(!before.contains(key));
                assert forall|other: Seq<char>| after.contains(other) <==> (before.contains(other)
                    || other == key) by {
                    if after.contains(other) {
                        let j = choose|j: int| 0 <= j < after.len() && after[j] == other;
                        if j < before.len() {
                            assert(before[j] == other);
                        }
                    }
                    if before.contains(other) {
                        let j = choose|j: int| 0 <= j < before.len() && before[j] == other;
                        assert(after[j] == other);
                    }
                    if other == key {
                        assert(after[before.len() as int] == other);
                    }
                }
                assert forall|i: int, j: int| 0 <= i < j < after.len() implies after[i]
                    != after[j] by {
                    if j == before.len() {
                        assert(before.contains(before[i]));
                    }
                }
            }
        }
        cache.insert(path, song);
        *self = MemCache { cache, order };
    }

    /// The cache that holds what `cache` lists: each path with its song, a later entry in
    /// place of an earlier one of the same path.
    pub fn from_cache(cache: Vec<(String, LoadedSong)>) -> (made: Self)
        ensures
            made@ == map_of_entries(cache@),
    {
        let mut made = MemCache::with_capacity(cache.len());
        let mut i: usize = 0;
        while i < cache.len()
            invariant
                i <= cache.len(),
                made@ == map_of_entries(cache@.take(i as int)),
            decreases cache.len() - i,
        {
            proof {
                assert(cache@.take(i + 1).drop_last() =~= cache@.take(i as int));
            }
            made.put(cache[i].0.clone(), cache[i].1.clone());
            i = i + 1;
        }
        proof {
            assert(cache@.take(i as int) =~= cache@);
        }
        made
    }

    /// What the cache holds: each path once, with its song.
    pub fn get_cache(&self) -> (entries: Vec<(String, LoadedSong)>)
        ensures
            is_snapshot_of(entries@, self@),
    {
        proof {
            use_type_invariant(self);
        }
        let ghost paths = self.order.deep_view();
        let mut entries: Vec<(String, LoadedSong)> = Vec::new();
        let mut i: usize = 0;
        while i < self.order.len()
            invariant
                i <= self.order.len(),
                paths == self.order.deep_view(),
                paths.no_duplicates(),
                forall|path: Seq<char>| self.cache@.contains_key(path) <==> paths.contains(path),
                entries.len() == i,
                forall|j: int|
                    0 <= j < i ==> (#[trigger] entries[j]).0@ == paths[j] && entries[j].1
                        == self.cache@[paths[j]],
            decreases self.order.len() - i,
        {
            let path = self.order[i].clone();
            proof {
                assert(paths[i as int] == path@);
                assert(paths.contains(path@));
            }
            match self.cache.get(path.as_str()) {
                Some(song) => {
                    entries.push((path, song.clone()));
                },
                None => {
                    assert(false);
                },
            }
            i = i + 1;
        }
        proof {
            let listed = entries@;
            assert forall|path: Seq<char>| #[trigger] self@.contains_key(path) implies exists|
                j: int,
            |
                0 <= j < listed.len() && #[trigger] listed[j].0@ == path by {
                assert(paths.contains(path));
                let j = choose|j: int| 0 <= j < paths.len() && paths[j] == path;
                assert(listed[j].0@ == path);
            }
            assert forall|j: int| 0 <= j < listed.len() implies self@.contains_key(
                #[trigger] listed[j].0@,
            ) && self@[listed[j].0@] == listed[j].1 by {
                assert(paths.contains(paths[j]));
            }
        }
        entries
    }
}

impl Default for MemCache {
    fn default() -> (cache: Self)
        ensures
            cache@ == Map::<Seq<char>, LoadedSong>::empty(),
    {
        MemCache::new()
    }
}

impl SongCache for MemCache {
    /// A cache in memory holds what its view says.
    open spec fn songs(&self) -> Map<Seq<char>, LoadedSong> {
        self@
    }

    /// A cache in memory gives for a path the song that it holds for it, if it holds one.
    open spec fn song_found(
        &self,
        path: Seq<char>,
        found: Result<Option<LoadedSong>, CacheError>,
    ) -> bool {
        found == Ok::<Option<LoadedSong>, CacheError>(lookup(self@, path))
    }

    /// Caching a song in memory is always well, and puts the song under its own path.
    open spec fn song_cached(
        &self,
        song: LoadedSong,
        after: Map<Seq<char>, LoadedSong>,
        done: Result<(), CacheError>,
    ) -> bool {
        done is Ok && after == cached(self@, song)
    }

    fn clear_cache(&mut self) -> (done: Result<(), CacheError>)
        ensures
            done is Ok,
            final(self)@ == Map::<Seq<char>, LoadedSong>::empty(),
    {
        *self = MemCache::new();
        Ok(())
    }

    fn reset_song_cache(&mut self, song_path: &str) -> (done: Result<(), CacheError>)
        ensures
            done is Ok,
            final(self)@ == reset(old(self)@, song_path@),
    {
        let (mut cache, mut order) = self.take();
        let wanted = song_path.to_owned();
        let ghost before = order.deep_view();
        let mut i: usize = 0;
        while i < order.len()
            invariant
                i <= order.len(),
                before == order.deep_view(),
                wanted@ == song_path@,
                forall|j: int| 0 <= j < i ==> before[j] != song_path@,
            ensures
                i <= order.len(),
                before == order.deep_view(),
                i < order.len() ==> before[i as int] == song_path@,
                forall|j: int| 0 <= j < i ==> before[j] != song_path@,
            decreases order.len() - i,
        {
            if order[i] == wanted {
                break;
            }
            i = i + 1;
        }
        if i < order.len() {
            order.remove(i);
            proof {
                let after = order.deep_view();
                assert(after =~= before.remove(i as int));
                assert forall|path: Seq<char>| after.contains(path) <==> (before.contains(path)
                    && path != song_path@) by {
                    if after.contains(path) {
                        let j = choose|j: int| 0 <= j < after.len() && after[j] == path;
                        if j < i {
                            assert(before[j] == path);
                        } else {
                            assert(before[j + 1] == path);
                        }
                    }
                    if before.contains(path) && path != song_path@ {
                        let j = choose|j: int| 0 <= j < before.len() && before[j] == path;
                        if j < i {
                            assert(after[j] == path);
                        } else {
                            assert(after[j - 1] == path);
                        }
                    }
                }
            }
        } else {
            proof {
                assert(!before.contains(song_path@));
            }
        }
        cache.remove(song_path);
        *self = MemCache { cache, order };
        Ok(())
    }

    fn cache_song(&mut self, loaded_song_data: LoadedSong) -> (done: Result<(), CacheError>)
        ensures
            done is Ok,
            final(self)@ == cached(old(self)@, loaded_song_data),
    {
        let path = loaded_song_data.path.clone();
        self.put(path, loaded_song_data);
        Ok(())
    }

    fn cache_songs(&mut self, loaded_songs: Vec<LoadedSong>) -> (done: Result<(), CacheError>)
        ensures
            done is Ok,
            final(self)@ == cached_all(old(self)@, loaded_songs@),
    {
        let ghost all = loaded_songs@;
        let ghost mut held = seq![self@];
        for song in it: loaded_songs
            invariant
                all == loaded_songs@,
                self@ == cached_all(old(self)@, all.take(it.index() as int)),
                holdings(held, old(self)@, self@),
                held.len() == it.index() + 1,
                forall|k: int|
                    0 <= k < it.index() ==> exists|cache: &Self|
                        #![trigger cache.songs()]
                        cache.songs() == #[trigger] held[k] && cache.song_cached(
                            all[k],
                            held[k + 1],
                            Ok(()),
                        ),
        {
            let ghost before: &Self = &*self;
            let ghost through = it.index() as int;
            let ghost so_far = held;
            let ghost handed = song;
            proof {
                assert(all.take(through + 1).drop_last() =~= all.take(through));
            }
            let path = song.path.clone();
            self.put(path, song);
            proof {
                held = so_far.push(self@);
                assert(handed == all[through]);
                assert(before.songs() == held[through]);
                assert(before.song_cached(all[through], held[through + 1], Ok(())));
                assert forall|k: int| 0 <= k < through implies exists|cache: &Self|
                    #![trigger cache.songs()]
                    cache.songs() == #[trigger] held[k] && cache.song_cached(
                        all[k],
                        held[k + 1],
                        Ok(()),
                    ) by {
                    let cache = choose|cache: &Self|
                        #![trigger cache.songs()]
                        cache.songs() == so_far[k] && cache.song_cached(
                            all[k],
                            so_far[k + 1],
                            Ok(()),
                        );
                    assert(so_far[k] == held[k]);
                    assert(so_far[k + 1] == held[k + 1]);
                    assert(cache.songs() == held[k]);
                }
            }
        }
        proof {
            assert(all.take(all.len() as int) =~= all);
            assert(holdings(held, old(self).songs(), self.songs()));
        }
        Ok(())
    }

    fn get_cached_song(&self, song_path: &str) -> (found: Result<Option<LoadedSong>, CacheError>)
        ensures
            found matches Ok(song) && song == lookup(self@, song_path@),
    {
        match self.cache.get(song_path) {
            Some(song) => Ok(Some(song.clone())),
            None => Ok(None),
        }
    }
}

} // verus!
