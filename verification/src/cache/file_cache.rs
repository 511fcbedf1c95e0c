//! A cache that is kept in a file between runs.

use vstd::prelude::*;
use crate::cache::cached;
use crate::cache::cached_all;
use crate::cache::lookup;
use crate::cache::mem_cache::is_snapshot_of;
use crate::cache::mem_cache::map_of_entries;
use crate::cache::mem_cache::MemCache;
use crate::cache::reset;
use crate::cache::CacheError;
use crate::cache::SongCache;
use crate::song_load::LoadedSong;

verus! {

/// A cache held in memory that is kept in a file between runs.
///
/// The file is a snapshot: it is read as a whole and written as a whole, by whoever owns
/// the cache. What is read is handed to `load_from_file`; what is to be written comes
/// from `save_to_file`.
pub struct FileCache {
    pub path: String,
    pub mem_cache: MemCache,
}

impl FileCache {
    /// An empty cache that is kept in the file at `path`.
    pub fn new(path: String) -> (cache: Self)
        ensures
            cache.path == path,
            cache.mem_cache@ == Map::<Seq<char>, LoadedSong>::empty(),
    {
        FileCache { path, mem_cache: MemCache::default() }
    }

    /// Takes in the outcome of reading the file. What was read takes the place of all that
    /// the cache held. Where reading failed the cache stays as it was, and the failure is
    /// handed on.
    pub fn load_from_file(
        &mut self,
        loaded: Result<Vec<(String, LoadedSong)>, std::io::Error>,
    ) -> (done: Result<(), std::io::Error>)
        ensures
            match loaded {
                Ok(entries) => done is Ok && final(self).mem_cache@ == map_of_entries(entries@)
                    && final(self).path == old(self).path,
                Err(error) => done == Err::<(), std::io::Error>(error) && *final(self) == *old(
                    self,
                ),
            },
    {
        match loaded {
            Ok(entries) => {
                self.mem_cache = MemCache::from_cache(entries);
                Ok(())
            },
            Err(error) => Err(error),
        }
    }

    /// What is to be written to the file: all that the cache holds, each path once.
    pub fn save_to_file(&self) -> (entries: Vec<(String, LoadedSong)>)
        ensures
            is_snapshot_of(entries@, self.mem_cache@),
    {
        self.mem_cache.get_cache()
    }

    /// Removes every song.
    pub fn clear_cache(&mut self) -> (done: Result<(), CacheError>)
        ensures
            done is Ok,
            final(self).mem_cache@ == Map::<Seq<char>, LoadedSong>::empty(),
            final(self).path == old(self).path,
    {
        self.mem_cache.clear_cache()
    }

    /// Removes the song of `song_path`, if there is one.
    pub fn reset_song_cache(&mut self, song_path: &str) -> (done: Result<(), CacheError>)
        ensures
            done is Ok,
            final(self).mem_cache@ == reset(old(self).mem_cache@, song_path@),
            final(self).path == old(self).path,
    {
        self.mem_cache.reset_song_cache(song_path)
    }

    /// Caches the song under its own path.
    pub fn cache_song(&mut self, loaded_song_data: LoadedSong) -> (done: Result<(), CacheError>)
        ensures
            done is Ok,
            final(self).mem_cache@ == cached(old(self).mem_cache@, loaded_song_data),
            final(self).path == old(self).path,
    {
        self.mem_cache.cache_song(loaded_song_data)
    }

    /// Caches each of the songs, in order.
    pub fn cache_songs(&mut self, loaded_songs: Vec<LoadedSong>) -> (done: Result<(), CacheError>)
        ensures
            done is Ok,
            final(self).mem_cache@ == cached_all(old(self).mem_cache@, loaded_songs@),
            final(self).path == old(self).path,
    {
        self.mem_cache.cache_songs(loaded_songs)
    }

    /// The song cached for `song_path`, if there is one.
    pub fn get_cached_song(&self, song_path: &str) -> (found: Result<
        Option<LoadedSong>,
        CacheError,
    >)
        ensures
            found matches Ok(song) && song == lookup(self.mem_cache@, song_path@),
    {
        self.mem_cache.get_cached_song(song_path)
    }

    /// Takes in the outcome of reading the file, as `load_from_file` does, and reports a
    /// failure as a failure of the storage.
    pub fn reload_cache(
        &mut self,
        loaded: Result<Vec<(String, LoadedSong)>, std::io::Error>,
    ) -> (done: Result<(), CacheError>)
        ensures
            match loaded {
                Ok(entries) => done is Ok && final(self).mem_cache@ == map_of_entries(entries@)
                    && final(self).path == old(self).path,
                Err(error) => done == Err::<(), CacheError>(CacheError::IoError(error))
                    && *final(self) == *old(self),
            },
    {
        match self.load_from_file(loaded) {
            Ok(()) => Ok(()),
            Err(error) => Err(CacheError::IoError(error)),
        }
    }

    /// Reports the outcome of writing the file: a failure as a failure of the storage.
    pub fn save_cache(&self, written: Result<(), std::io::Error>) -> (done: Result<(), CacheError>)
        ensures
            match written {
                Ok(()) => done is Ok,
                Err(error) => done == Err::<(), CacheError>(CacheError::IoError(error)),
            },
    {
        match written {
            Ok(()) => Ok(()),
            Err(error) => Err(CacheError::IoError(error)),
        }
    }
}

} // verus!
