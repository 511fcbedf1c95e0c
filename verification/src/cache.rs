//! Caches of loaded songs, at most one song for each path.

pub mod file_cache;
pub mod mem_cache;

use vstd::prelude::*;
use crate::song_load::LoadedSong;

verus! {

/// `std::io::Error` of std, as a value that is carried and not looked into.
#[verifier::external_type_specification]
#[verifier::external_body]
pub struct ExIoError(std::io::Error);

/// Why a cache operation failed.
#[derive(Debug)]
pub enum CacheError {
    /// A failure that is not one of the backing storage.
    GeneralError(String),
    /// A failure to read or write the backing storage.
    IoError(std::io::Error),
}

/// The songs of a cache once `song` is cached: it stands under its own path, in place of
/// what stood there.
pub open spec fn cached(songs: Map<Seq<char>, LoadedSong>, song: LoadedSong) -> Map<
    Seq<char>,
    LoadedSong,
> {
    songs.insert(song.path@, song)
}

/// The songs of a cache once each of `list` is cached, in order.
pub open spec fn cached_all(songs: Map<Seq<char>, LoadedSong>, list: Seq<LoadedSong>) -> Map<
    Seq<char>,
    LoadedSong,
>
    decreases list.len(),
{
    if list.len() == 0 {
        songs
    } else {
        cached(cached_all(songs, list.drop_last()), list.last())
    }
}

/// The songs of a cache once the entry of `path` is reset.
pub open spec fn reset(songs: Map<Seq<char>, LoadedSong>, path: Seq<char>) -> Map<
    Seq<char>,
    LoadedSong,
> {
    songs.remove(path)
}

/// The song that a cache holds for `path`, if it holds one.
pub open spec fn lookup(songs: Map<Seq<char>, LoadedSong>, path: Seq<char>) -> Option<
    LoadedSong,
> {
    if songs.contains_key(path) {
        Some(songs[path])
    } else {
        None
    }
}

/// A song that was cached is found again under its path, whatever the cache held before,
/// and is found no more once its path is reset.
pub proof fn lemma_cache_round_trip(songs: Map<Seq<char>, LoadedSong>, song: LoadedSong)
    ensures
        lookup(cached(songs, song), song.path@) == Some(song),
        lookup(reset(cached(songs, song), song.path@), song.path@) == None::<LoadedSong>,
{
}

/// Caching or resetting one path leaves the entries of every other path as they were.
pub proof fn lemma_cache_other_paths(
    songs: Map<Seq<char>, LoadedSong>,
    song: LoadedSong,
    other: Seq<char>,
)
    requires
        other != song.path@,
    ensures
        lookup(cached(songs, song), other) == lookup(songs, other),
        lookup(reset(songs, song.path@), other) == lookup(songs, other),
{
}

/// Once each of `list` is cached, every one of them is found under its path: the last of
/// the list that has that path. What the cache held for any other path is as it was.
pub proof fn lemma_all_cached(songs: Map<Seq<char>, LoadedSong>, list: Seq<LoadedSong>)
    ensures
        forall|i: int|
            0 <= i < list.len() && (forall|j: int|
                i < j < list.len() ==> (#[trigger] list[j]).path@ != list[i].path@) ==> lookup(
                cached_all(songs, list),
                (#[trigger] list[i]).path@,
            ) == Some(list[i]),
        forall|path: Seq<char>|
            (forall|i: int| 0 <= i < list.len() ==> (#[trigger] list[i]).path@ != path) ==> lookup(
                #[trigger] cached_all(songs, list),
                path,
            ) == lookup(songs, path),
    decreases list.len(),
{
    if list.len() > 0 {
        let front = list.drop_last();
        lemma_all_cached(songs, front);
        let last = list.len() - 1;
        assert(list.last() == list[last]);
        assert forall|i: int|
            0 <= i < list.len() && (forall|j: int|
                i < j < list.len() ==> (#[trigger] list[j]).path@ != list[i].path@) implies lookup(
            cached_all(songs, list),
            (#[trigger] list[i]).path@,
        ) == Some(list[i]) by {
            if i < last {
                assert(front[i] == list[i]);
                assert(list[last].path@ != list[i].path@);
                assert forall|j: int| i < j < front.len() implies (#[trigger] front[j]).path@
                    != front[i].path@ by {
                    assert(front[j] == list[j]);
                }
            }
        }
        assert forall|path: Seq<char>|
            (forall|i: int|
                0 <= i < list.len() ==> (#[trigger] list[i]).path@ != path) implies lookup(
            #[trigger] cached_all(songs, list),
            path,
        ) == lookup(songs, path) by {
            assert(list[last].path@ != path);
            assert forall|i: int| 0 <= i < front.len() implies (#[trigger] front[i]).path@
                != path by {
                assert(front[i] == list[i]);
            }
        }
    }
}

/// Whether `held` is what a cache holds while songs are given to it one by one: what it
/// holds before the first song, `before`, and after each song, at the end `after`.
pub open spec fn holdings(
    held: Seq<Map<Seq<char>, LoadedSong>>,
    before: Map<Seq<char>, LoadedSong>,
    after: Map<Seq<char>, LoadedSong>,
) -> bool {
    &&& held.len() >= 1
    &&& held[0] == before
    &&& held[held.len() - 1] == after
}

/// A store of loaded songs, at most one for each path.
///
/// A store may be backed by anything, and every operation may fail. What a kind of cache
/// holds, what it gives for a path, and what caching a song comes to, it says for itself
/// in `songs`, `song_found` and `song_cached`; of a cache that says nothing, nothing is
/// known. The operations that a cache does not write for itself do what is written here.
pub trait SongCache: Send + Sync {
    /// The songs that the cache holds, by path, as far as this kind of cache says. One that
    /// says nothing is taken to hold none.
    open spec fn songs(&self) -> Map<Seq<char>, LoadedSong> {
        Map::empty()
    }

    /// What looking a path up can come to, in this kind of cache: whether this cache can
    /// give `found` for `path`. Each kind of cache says this for itself; one that says
    /// nothing may give anything.
    open spec fn song_found(
        &self,
        path: Seq<char>,
        found: Result<Option<LoadedSong>, CacheError>,
    ) -> bool {
        true
    }

    /// What caching one song can come to, in this kind of cache: whether this cache can
    /// hold `after` and say `done` once it was given `song`. Each kind of cache says this
    /// for itself; one that says nothing may do anything.
    open spec fn song_cached(
        &self,
        song: LoadedSong,
        after: Map<Seq<char>, LoadedSong>,
        done: Result<(), CacheError>,
    ) -> bool {
        true
    }

    /// Clears the entire song cache.
    fn clear_cache(&mut self) -> Result<(), CacheError>;

    /// Resets the cached data for the given song path.
    fn reset_song_cache(&mut self, song_path: &str) -> Result<(), CacheError>;

    /// Caches the loaded song data under its own path.
    fn cache_song(&mut self, loaded_song_data: LoadedSong) -> (done: Result<(), CacheError>)
        ensures
            old(self).song_cached(loaded_song_data, final(self).songs(), done),
    ;

    /// Caches the songs. Where all is well, each of them was cached, one after another in
    /// the order of the list: `held` is what the cache held before the first song and
    /// after each. That holds of every cache, however it goes about the list.
    ///
    /// A cache that does not say otherwise gives the songs to `cache_song` in turn and
    /// stops at the first that fails: then `held` ends after the song that failed, the
    /// songs before it were cached, and it came to `done`.
    fn cache_songs(&mut self, loaded_songs: Vec<LoadedSong>) -> (done: Result<(), CacheError>)
        ensures
            done is Ok ==> (exists|held: Seq<Map<Seq<char>, LoadedSong>>|
                {
                    &&& #[trigger] holdings(held, old(self).songs(), final(self).songs())
                    &&& held.len() == loaded_songs@.len() + 1
                    &&& forall|k: int|
                        0 <= k < loaded_songs@.len() ==> exists|cache: &Self|
                            #![trigger cache.songs()]
                            cache.songs() == #[trigger] held[k] && cache.song_cached(
                                loaded_songs@[k],
                                held[k + 1],
                                Ok(()),
                            )
                }),
        default_ensures
            done is Err ==> (exists|held: Seq<Map<Seq<char>, LoadedSong>>|
                {
                    let given = held.len() - 1;
                    &&& 1 <= given <= loaded_songs@.len()
                    &&& #[trigger] holdings(held, old(self).songs(), final(self).songs())
                    &&& forall|k: int|
                        0 <= k < given - 1 ==> exists|cache: &Self|
                            #![trigger cache.songs()]
                            cache.songs() == #[trigger] held[k] && cache.song_cached(
                                loaded_songs@[k],
                                held[k + 1],
                                Ok(()),
                            )
                    &&& exists|cache: &Self|
                        #![trigger cache.songs()]
                        cache.songs() == held[given - 1] && cache.song_cached(
                            loaded_songs@[given - 1],
                            held[given],
                            done,
                        )
                }),
    {
        let ghost all = loaded_songs@;
        let ghost mut held = seq![self.songs()];
        for song in it: loaded_songs
            invariant
                all == loaded_songs@,
                holdings(held, old(self).songs(), self.songs()),
                held.len() == it.index() + 1,
                forall|k: int|
                    0 <= k < it.index() ==> exists|cache: &Self|
                        #![trigger cache.songs()]
                        cache.songs() == #[trigger] held[k] && cache.song_cached(
                            all[k],
                            held[k + 1],
                            Ok(()),
                        ),
        {
            let ghost before: &Self = &*self;
            let ghost through = it.index() as int;
            let ghost so_far = held;
            let ghost handed = song;
            let stored = self.cache_song(song);
            proof {
                held = so_far.push(self.songs());
                assert(handed == all[through]);
                assert(before.songs() == held[through]);
                assert(before.song_cached(all[through], held[through + 1], stored));
                assert forall|k: int| 0 <= k < through implies exists|cache: &Self|
                    #![trigger cache.songs()]
                    cache.songs() == #[trigger] held[k] && cache.song_cached(
                        all[k],
                        held[k + 1],
                        Ok(()),
                    ) by {
                    let cache = choose|cache: &Self|
                        #![trigger cache.songs()]
                        cache.songs() == so_far[k] && cache.song_cached(
                            all[k],
                            so_far[k + 1],
                            Ok(()),
                        );
                    assert(so_far[k] == held[k]);
                    assert(so_far[k + 1] == held[k + 1]);
                    assert(cache.songs() == held[k]);
                }
            }
            match stored {
                Ok(()) => {
                    proof {
                        assert(stored->Ok_0 == ());
                        assert(before.songs() == held[through]);
                    }
                },
                Err(error) => {
                    proof {
                        assert(holdings(held, old(self).songs(), self.songs()));
                    }
                    return Err(error);
                },
            }
        }
        proof {
            assert(holdings(held, old(self).songs(), self.songs()));
        }
        Ok(())
    }

    /// Retrieves the cached loaded song data for the given song path, if it exists.
    fn get_cached_song(&self, song_path: &str) -> (found: Result<Option<LoadedSong>, CacheError>)
        ensures
            self.song_found(song_path@, found),
    ;

    /// Fills the cache from where it is kept. A cache that is kept nowhere does nothing:
    /// that is what a cache does which does not say otherwise.
    fn reload_cache(&mut self) -> (done: Result<(), CacheError>)
        default_ensures
            done is Ok,
            &*final(self) == &*old(self),
    {
        Ok(())
    }

    /// Writes the cache to where it is kept. A cache that is kept nowhere does nothing:
    /// that is what a cache does which does not say otherwise.
    fn save_cache(&self) -> (done: Result<(), CacheError>)
        default_ensures
            done is Ok,
    {
        Ok(())
    }
}

/// Whether each of `list` was cached, one after another, by a cache of the kind `C` that
/// held `before` and holds `after`: what `cache_songs` comes to where all is well.
pub open spec fn all_cached<C: SongCache + ?Sized>(
    before: Map<Seq<char>, LoadedSong>,
    list: Seq<LoadedSong>,
    after: Map<Seq<char>, LoadedSong>,
) -> bool {
    exists|held: Seq<Map<Seq<char>, LoadedSong>>|
        {
            &&& #[trigger] holdings(held, before, after)
            &&& held.len() == list.len() + 1
            &&& forall|k: int|
                0 <= k < list.len() ==> exists|cache: &C|
                    #![trigger cache.songs()]
                    cache.songs() == #[trigger] held[k] && cache.song_cached(
                        list[k],
                        held[k + 1],
                        Ok(()),
                    )
        }
}

} // verus!
