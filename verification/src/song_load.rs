//! Loading a package: its hash and the length of its song, from a cache where it is there.

pub mod directory;
pub mod laws;

pub use crate::song_load::directory::answer_scan_from_cache;
pub use crate::song_load::directory::cache_loaded_songs;
pub use crate::song_load::directory::check_song_directories;
pub use crate::song_load::directory::load_song_directory;
pub use crate::song_load::directory::load_song_directory_parallel;
pub use crate::song_load::directory::scan_stored;
pub use crate::song_load::directory::ScanReply;
pub use crate::song_load::directory::ScanRequest;
pub use crate::song_load::directory::ScanSession;
pub use crate::song_load::directory::ScanStage;
pub use crate::song_load::directory::ScanStep;
use vstd::prelude::*;
use std::time::Duration;
use crate::audio_load::failure_prefix;
use crate::audio_load::get_song_length;
use crate::audio_load::song_length_from_probe;
use crate::audio_load::song_length_from_read;
use crate::audio_load::SongLengthStep;
use crate::beatmap::SourceReply;
use crate::beatmap::SourceRequest;
use crate::cache::CacheError;
use crate::cache::SongCache;
use crate::hash::session::HashSession;
use crate::hash::session::HashStep;

verus! {

/// A package that was loaded: where it lies, the hash of its contents, and the length of
/// its song where that is known.
#[derive(Debug, PartialEq, Eq, PartialOrd, Ord, Hash)]
pub struct LoadedSong {
    /// Path to the song
    pub path: String,
    /// SHA-1 hash of the song's contents
    pub hash: String,
    /// Length of the song, if known
    pub song_length: Option<Duration>,
}

impl Clone for LoadedSong {
    fn clone(&self) -> (copy: Self)
        ensures
            copy == *self,
    {
        LoadedSong {
            path: self.path.clone(),
            hash: self.hash.clone(),
            song_length: self.song_length,
        }
    }
}

/// The packages that a scan of a directory loaded.
pub struct LoadedSongs {
    pub songs: Vec<LoadedSong>,
}

/// Why a package, or a directory of packages, could not be loaded.
#[derive(Debug)]
pub enum LoadSongError {
    /// Nothing lies at the path.
    PathDoesNotExist(String),
    /// The path of a scan does not name a directory.
    NotADirectory(String),
    /// The manifest could not be decoded.
    DecodeError(String),
    /// The song could not be measured.
    ComputeHashError(String),
    /// The cache failed.
    CacheError(CacheError),
    /// A file of the package could not be read.
    IoError(std::io::Error),
}

/// A copy of each of `songs`, in the same order.
pub fn clone_songs(songs: &Vec<LoadedSong>) -> (copy: Vec<LoadedSong>)
    ensures
        copy@ == songs@,
{
    let mut copy: Vec<LoadedSong> = Vec::new();
    let mut i: usize = 0;
    while i < songs.len()
        invariant
            i <= songs.len(),
            copy@ =~= songs@.take(i as int),
        decreases songs.len() - i,
    {
        copy.push(songs[i].clone());
        i = i + 1;
    }
    assert(songs@.take(i as int) =~= songs@);
    copy
}

impl Clone for LoadedSongs {
    fn clone(&self) -> (copy: Self)
        ensures
            copy.songs@ == self.songs@,
    {
        LoadedSongs { songs: clone_songs(&self.songs) }
    }
}

/// What the one who loads a package is asked to do.
pub enum LoadRequest {
    /// Find out whether anything lies at the path of the package.
    CheckPath,
    /// Look the path of the package up in the cache.
    LookUp,
    /// Open the package at the path: an archive where the path names a file, else a
    /// directory.
    OpenSource,
    /// Ask the source that was opened.
    Source(SourceRequest),
    /// Measure the length of the song that these bytes hold.
    Probe(Vec<u8>),
    /// Put this song into the cache.
    Store(LoadedSong),
}

/// What came of a request.
pub enum LoadReply {
    /// The outcome of `CheckPath`: whether something lies there.
    PathChecked(bool),
    /// The outcome of `LookUp`.
    LookedUp(Result<Option<LoadedSong>, CacheError>),
    /// The outcome of `OpenSource`.
    SourceOpened(Result<(), std::io::Error>),
    /// The outcome of `Source`.
    Source(SourceReply),
    /// The outcome of `Probe`: the length, unknown where the bytes hold no track.
    Probed(Result<Option<Duration>, String>),
    /// The outcome of `Store`.
    Stored(Result<(), CacheError>),
}

/// How far the loading of a package has come.
pub enum LoadStage {
    /// Whether the path exists was asked.
    CheckingPath,
    /// The cache was asked for the path.
    LookingUp,
    /// The source was asked to open.
    Opening,
    /// The package is being hashed.
    Hashing(HashSession),
    /// The song file was asked for; the hash is known.
    ReadingSong { hash: String, song: String },
    /// The song was sent to be measured; the hash is known.
    Probing { hash: String, song: String },
    /// The loaded song was sent to the cache.
    Storing { loaded: LoadedSong },
}

/// The loading of one package, between two requests.
pub struct LoadSession {
    /// The path of the package.
    pub path: String,
    /// Whether a cache is consulted first and written to at the end.
    pub cached: bool,
    /// How far the loading has come.
    pub stage: LoadStage,
}

/// Where the loading of a package stands after a reply.
pub enum LoadStep {
    /// More is asked; the reply goes to the session given.
    Ask(LoadSession, LoadRequest),
    /// The package is loaded.
    Done(LoadedSong),
    /// The package cannot be loaded.
    Failed(LoadSongError),
}

impl LoadSession {
    /// The session at another stage.
    pub open spec fn at(self, stage: LoadStage) -> LoadSession {
        LoadSession { path: self.path, cached: self.cached, stage }
    }

    /// Whether `request` is what the session waits on.
    pub open spec fn asks(self, request: LoadRequest) -> bool {
        match self.stage {
            LoadStage::CheckingPath => request is CheckPath,
            LoadStage::LookingUp => request is LookUp,
            LoadStage::Opening => request is OpenSource,
            LoadStage::Hashing(hashing) => request matches LoadRequest::Source(asked)
                && hashing.asks(asked),
            LoadStage::ReadingSong { song, .. } => request == LoadRequest::Source(
                SourceRequest::ReadFile(song),
            ),
            LoadStage::Probing { .. } => request is Probe,
            LoadStage::Storing { loaded } => request == LoadRequest::Store(loaded),
        }
    }

    /// Whether `reply` answers what the session waits on.
    pub open spec fn answered_by(self, reply: LoadReply) -> bool {
        match self.stage {
            LoadStage::CheckingPath => reply is PathChecked,
            LoadStage::LookingUp => reply is LookedUp,
            LoadStage::Opening => reply is SourceOpened,
            LoadStage::Hashing(hashing) => reply matches LoadReply::Source(given)
                && hashing.answered_by(given),
            LoadStage::ReadingSong { .. } => reply matches LoadReply::Source(
                SourceReply::FileRead(_),
            ),
            LoadStage::Probing { .. } => reply is Probed,
            LoadStage::Storing { .. } => reply is Stored,
        }
    }

    /// What follows once the source is to be opened.
    pub open spec fn opens(self, step: LoadStep) -> bool {
        step == LoadStep::Ask(self.at(LoadStage::Opening), LoadRequest::OpenSource)
    }

    /// What follows once hash and length are known: the song is done, or, with a cache,
    /// is first sent to it.
    pub open spec fn finishes(
        self,
        hash: String,
        length: Option<Duration>,
        step: LoadStep,
    ) -> bool {
        let loaded = LoadedSong { path: self.path, hash, song_length: length };
        if self.cached {
            step == LoadStep::Ask(
                self.at(LoadStage::Storing { loaded }),
                LoadRequest::Store(loaded),
            )
        } else {
            step == LoadStep::Done(loaded)
        }
    }

    /// What follows a step of the hashing.
    pub open spec fn follows_hashing(self, hashed: HashStep, step: LoadStep) -> bool {
        match hashed {
            HashStep::Ask(next, asked) => step == LoadStep::Ask(
                self.at(LoadStage::Hashing(next)),
                LoadRequest::Source(asked),
            ),
            HashStep::Failed(error) => step == LoadStep::Failed(error),
            HashStep::Done(hash, info) => match info.song_filename {
                Some(song) => step == LoadStep::Ask(
                    self.at(LoadStage::ReadingSong { hash, song }),
                    LoadRequest::Source(SourceRequest::ReadFile(song)),
                ),
                None => self.finishes(hash, None, step),
            },
        }
    }

    /// Whether `step` fails the load because the length of the song is not to be had, in
    /// words that end in `words`.
    pub open spec fn fails_on_length(step: LoadStep, words: Seq<char>) -> bool {
        step matches LoadStep::Failed(LoadSongError::ComputeHashError(said)) && said@
            == failure_prefix() + words
    }

    /// What follows a reply that answers the session.
    ///
    /// - A path at which nothing lies fails the load.
    /// - With a cache, the path is looked up first: what the cache holds for it is the
    ///   result, and the package is not touched. A cache that fails fails the load.
    /// - Else the source is opened and the package hashed; each failure fails the load.
    /// - The hash known, the song that the manifest names is read and measured. A song that
    ///   cannot be measured fails the load. A manifest that names no song, and a song that
    ///   is named and is not there, give a song of unknown length.
    /// - With a cache, the loaded song is written to it before it is handed out; a cache
    ///   that fails fails the load.
    pub open spec fn yields(self, reply: LoadReply, step: LoadStep) -> bool
        recommends
            self.answered_by(reply),
    {
        match (self.stage, reply) {
            (LoadStage::CheckingPath, LoadReply::PathChecked(exists)) => {
                if !exists {
                    step == LoadStep::Failed(LoadSongError::PathDoesNotExist(self.path))
                } else if self.cached {
                    step == LoadStep::Ask(self.at(LoadStage::LookingUp), LoadRequest::LookUp)
                } else {
                    self.opens(step)
                }
            },
            (LoadStage::LookingUp, LoadReply::LookedUp(found)) => {
                match found {
                    Ok(Some(song)) => step == LoadStep::Done(song),
                    Ok(None) => self.opens(step),
                    Err(error) => step == LoadStep::Failed(LoadSongError::CacheError(error)),
                }
            },
            (LoadStage::Opening, LoadReply::SourceOpened(opened)) => {
                match opened {
                    Ok(()) => {
                        &&& step matches LoadStep::Ask(next, request)
                        &&& next == self.at(
                            LoadStage::Hashing(HashSession::ReadingManifest { fallback: false }),
                        )
                        &&& next.asks(request)
                    },
                    Err(error) => step == LoadStep::Failed(LoadSongError::IoError(error)),
                }
            },
            (LoadStage::Hashing(hashing), LoadReply::Source(given)) => {
                exists|hashed: HashStep| #[trigger]
                    hashing.yields(given, hashed) && self.follows_hashing(hashed, step)
            },
            (
                LoadStage::ReadingSong { hash, song },
                LoadReply::Source(SourceReply::FileRead(read)),
            ) => {
                match read {
                    Ok(bytes) => step == LoadStep::Ask(
                        self.at(LoadStage::Probing { hash, song }),
                        LoadRequest::Probe(bytes),
                    ),
                    Err(_) => self.finishes(hash, None, step),
                }
            },
            (LoadStage::Probing { hash, .. }, LoadReply::Probed(probed)) => {
                match probed {
                    Ok(length) => self.finishes(hash, length, step),
                    Err(words) => Self::fails_on_length(step, failure_prefix() + words@),
                }
            },
            (LoadStage::Storing { loaded }, LoadReply::Stored(stored)) => {
                match stored {
                    Ok(()) => step == LoadStep::Done(loaded),
                    Err(error) => step == LoadStep::Failed(LoadSongError::CacheError(error)),
                }
            },
            _ => false,
        }
    }

    /// What follows a reply that does not answer the session: the same is asked again.
    /// Where the song was being measured, it is read again first.
    pub open spec fn repeats(self, step: LoadStep) -> bool {
        match self.stage {
            LoadStage::Probing { hash, song } => step == LoadStep::Ask(
                self.at(LoadStage::ReadingSong { hash, song }),
                LoadRequest::Source(SourceRequest::ReadFile(song)),
            ),
            _ => step matches LoadStep::Ask(next, request) && next == self && self.asks(request),
        }
    }

    /// The step that asks the source to open.
    fn open_source(path: String, cached: bool) -> (step: LoadStep)
        ensures
            (LoadSession { path, cached, stage: LoadStage::Opening }).opens(step),
    {
        LoadStep::Ask(
            LoadSession { path, cached, stage: LoadStage::Opening },
            LoadRequest::OpenSource,
        )
    }

    /// The step once hash and length are known.
    fn finish(path: String, cached: bool, hash: String, length: Option<Duration>) -> (step:
        LoadStep)
        ensures
            (LoadSession { path, cached, stage: LoadStage::Opening }).finishes(hash, length, step),
    {
        let loaded = LoadedSong { path: path.clone(), hash, song_length: length };
        if cached {
            let sent = loaded.clone();
            LoadStep::Ask(
                LoadSession { path, cached, stage: LoadStage::Storing { loaded } },
                LoadRequest::Store(sent),
            )
        } else {
            LoadStep::Done(loaded)
        }
    }

    /// The step that fails the load for want of the song's length.
    fn fail_on_length(words: String) -> (step: LoadStep)
        ensures
            Self::fails_on_length(step, words@),
    {
        let said = String::from_str("Failed to get song length: ").concat(words.as_str());
        LoadStep::Failed(LoadSongError::ComputeHashError(said))
    }

    /// The step that asks again what the session waits on.
    fn repeat(self) -> (step: LoadStep)
        ensures
            self.repeats(step),
    {
        let LoadSession { path, cached, stage } = self;
        match stage {
            LoadStage::CheckingPath => LoadStep::Ask(
                LoadSession { path, cached, stage: LoadStage::CheckingPath },
                LoadRequest::CheckPath,
            ),
            LoadStage::LookingUp => LoadStep::Ask(
                LoadSession { path, cached, stage: LoadStage::LookingUp },
                LoadRequest::LookUp,
            ),
            LoadStage::Opening => LoadStep::Ask(
                LoadSession { path, cached, stage: LoadStage::Opening },
                LoadRequest::OpenSource,
            ),
            LoadStage::Hashing(hashing) => {
                let asked = hashing.request();
                LoadStep::Ask(
                    LoadSession { path, cached, stage: LoadStage::Hashing(hashing) },
                    LoadRequest::Source(asked),
                )
            },
            LoadStage::ReadingSong { hash, song } => {
                let asked = song.clone();
                LoadStep::Ask(
                    LoadSession { path, cached, stage: LoadStage::ReadingSong { hash, song } },
                    LoadRequest::Source(SourceRequest::ReadFile(asked)),
                )
            },
            LoadStage::Probing { hash, song } => {
                let asked = song.clone();
                LoadStep::Ask(
                    LoadSession { path, cached, stage: LoadStage::ReadingSong { hash, song } },
                    LoadRequest::Source(SourceRequest::ReadFile(asked)),
                )
            },
            LoadStage::Storing { loaded } => {
                let sent = loaded.clone();
                LoadStep::Ask(
                    LoadSession { path, cached, stage: LoadStage::Storing { loaded } },
                    LoadRequest::Store(sent),
                )
            },
        }
    }

    /// Takes the reply to what was asked, and says what follows.
    pub fn advance(self, reply: LoadReply) -> (step: LoadStep)
        ensures
            self.answered_by(reply) ==> self.yields(reply, step),
            !self.answered_by(reply) ==> self.repeats(step),
    {
        let LoadSession { path, cached, stage } = self;
        match (stage, reply) {
            (LoadStage::CheckingPath, LoadReply::PathChecked(exists)) => {
                if !exists {
                    LoadStep::Failed(LoadSongError::PathDoesNotExist(path))
                } else if cached {
                    LoadStep::Ask(
                        LoadSession { path, cached, stage: LoadStage::LookingUp },
                        LoadRequest::LookUp,
                    )
                } else {
                    Self::open_source(path, cached)
                }
            },
            (LoadStage::LookingUp, LoadReply::LookedUp(found)) => {
                match found {
                    Ok(Some(song)) => LoadStep::Done(song),
                    Ok(None) => Self::open_source(path, cached),
                    Err(error) => LoadStep::Failed(LoadSongError::CacheError(error)),
                }
            },
            (LoadStage::Opening, LoadReply::SourceOpened(opened)) => {
                match opened {
                    Ok(()) => {
                        match HashSession::start() {
                            HashStep::Ask(hashing, asked) => LoadStep::Ask(
                                LoadSession { path, cached, stage: LoadStage::Hashing(hashing) },
                                LoadRequest::Source(asked),
                            ),
                            HashStep::Done(_, _) => unreached(),
                            HashStep::Failed(_) => unreached(),
                        }
                    },
                    Err(error) => LoadStep::Failed(LoadSongError::IoError(error)),
                }
            },
            (LoadStage::Hashing(hashing), LoadReply::Source(given)) => {
                let ghost answered = hashing.answered_by(given);
                let hashed = hashing.advance(given);
                let ghost taken = hashed;
                let step = match hashed {
                    HashStep::Ask(next, asked) => LoadStep::Ask(
                        LoadSession { path, cached, stage: LoadStage::Hashing(next) },
                        LoadRequest::Source(asked),
                    ),
                    HashStep::Failed(error) => LoadStep::Failed(error),
                    HashStep::Done(hash, info) => {
                        match get_song_length(&info) {
                            SongLengthStep::ReadSong(song) => {
                                let asked = song.clone();
                                LoadStep::Ask(
                                    LoadSession {
                                        path,
                                        cached,
                                        stage: LoadStage::ReadingSong { hash, song },
                                    },
                                    LoadRequest::Source(SourceRequest::ReadFile(asked)),
                                )
                            },
                            SongLengthStep::Done(Ok(length)) => Self::finish(
                                path,
                                cached,
                                hash,
                                length,
                            ),
                            SongLengthStep::Done(Err(_)) => unreached(),
                            SongLengthStep::Probe(_) => unreached(),
                        }
                    },
                };
                proof {
                    if answered {
                        assert(hashing.yields(given, taken) && self.follows_hashing(taken, step));
                    }
                }
                step
            },
            (
                LoadStage::ReadingSong { hash, song },
                LoadReply::Source(SourceReply::FileRead(read)),
            ) => {
                match song_length_from_read(read) {
                    SongLengthStep::Probe(bytes) => LoadStep::Ask(
                        LoadSession { path, cached, stage: LoadStage::Probing { hash, song } },
                        LoadRequest::Probe(bytes),
                    ),
                    SongLengthStep::Done(Ok(length)) => Self::finish(path, cached, hash, length),
                    SongLengthStep::Done(Err(_)) => unreached(),
                    SongLengthStep::ReadSong(_) => unreached(),
                }
            },
            (LoadStage::Probing { hash, song }, LoadReply::Probed(probed)) => {
                match song_length_from_probe(probed) {
                    SongLengthStep::Done(Ok(length)) => Self::finish(path, cached, hash, length),
                    SongLengthStep::Done(Err(words)) => Self::fail_on_length(words),
                    SongLengthStep::ReadSong(_) => unreached(),
                    SongLengthStep::Probe(_) => unreached(),
                }
            },
            (LoadStage::Storing { loaded }, LoadReply::Stored(stored)) => {
                match stored {
                    Ok(()) => LoadStep::Done(loaded),
                    Err(error) => LoadStep::Failed(LoadSongError::CacheError(error)),
                }
            },
            (stage, _) => (LoadSession { path, cached, stage }).repeat(),
        }
    }
}

/// Begins to load the package at `path`, with a cache or without: whether anything lies
/// at the path is asked first.
///
/// The caller does what each step asks and hands the reply to `advance`, until a step
/// says that the song is done or that the load failed.
pub fn load_song_from_path(path: String, cached: bool) -> (step: LoadStep)
    ensures
        step == LoadStep::Ask(
            LoadSession { path, cached, stage: LoadStage::CheckingPath },
            LoadRequest::CheckPath,
        ),
{
    LoadStep::Ask(
        LoadSession { path, cached, stage: LoadStage::CheckingPath },
        LoadRequest::CheckPath,
    )
}

/// Answers from `cache` what a load asks of a cache. A look-up is answered with what the
/// cache gives for `path`; a song to store is given to the cache, and the answer is what
/// the cache said of it. Any other request is handed back, for the caller to do, and the
/// cache is not touched.
pub fn answer_from_cache<C: SongCache + ?Sized>(
    cache: &mut C,
    path: &str,
    request: LoadRequest,
) -> (answer: Result<LoadReply, LoadRequest>)
    ensures
        match request {
            LoadRequest::LookUp => answer matches Ok(LoadReply::LookedUp(found)) && old(
                cache,
            ).song_found(path@, found) && final(cache).songs() == old(cache).songs(),
            LoadRequest::Store(song) => answer matches Ok(LoadReply::Stored(done)) && old(
                cache,
            ).song_cached(song, final(cache).songs(), done),
            _ => answer == Err::<LoadReply, LoadRequest>(request) && final(cache).songs() == old(
                cache,
            ).songs(),
        },
{
    match request {
        LoadRequest::LookUp => Ok(LoadReply::LookedUp(cache.get_cached_song(path))),
        LoadRequest::Store(loaded) => Ok(LoadReply::Stored(cache.cache_song(loaded))),
        other => Err(other),
    }
}

} // verus!
