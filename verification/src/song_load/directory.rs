//! Loading every package of a directory.

use vstd::prelude::*;
use crate::cache::all_cached;
use crate::cache::CacheError;
use crate::cache::SongCache;
use crate::song_load::clone_songs;
use crate::song_load::LoadSongError;
use crate::song_load::LoadedSong;
use crate::song_load::LoadedSongs;

verus! {

/// The songs among `outcomes`: each load that went well, in the same order.
pub open spec fn loaded_songs(outcomes: Seq<Result<LoadedSong, LoadSongError>>) -> Seq<LoadedSong>
    decreases outcomes.len(),
{
    if outcomes.len() == 0 {
        Seq::empty()
    } else {
        let earlier = loaded_songs(outcomes.drop_last());
        match outcomes.last() {
            Ok(song) => earlier.push(song),
            Err(_) => earlier,
        }
    }
}

/// What the one who scans a directory of packages is asked to do.
pub enum ScanRequest {
    /// Find out whether the path exists and names a directory.
    CheckDirectory,
    /// List the entries of the directory, those right below it, and count them.
    ListEntries,
    /// Load the entry of this number, without a cache.
    LoadEntry(usize),
    /// Tell whoever follows the scan that this song was loaded, as the entry of the first
    /// number out of the second.
    Report(LoadedSong, usize, usize),
    /// Put these songs into the cache, in order.
    StoreAll(Vec<LoadedSong>),
}

/// What came of a request.
pub enum ScanReply {
    /// The outcome of `CheckDirectory`.
    DirectoryChecked { exists: bool, is_directory: bool },
    /// The outcome of `ListEntries`: how many entries there are.
    EntriesListed(Result<usize, std::io::Error>),
    /// The outcome of `LoadEntry`.
    EntryLoaded(Result<LoadedSong, LoadSongError>),
    /// `Report` was done.
    Reported,
    /// The outcome of `StoreAll`.
    AllStored(Result<(), CacheError>),
}

/// How far a scan has come.
pub enum ScanStage {
    /// The path is being checked.
    Checking,
    /// The entries are being listed.
    Listing,
    /// The entry of number `index` is being loaded; `songs` are those loaded before it.
    Loading { total: usize, index: usize, songs: Vec<LoadedSong> },
    /// The song of entry `index`, the last of `songs`, is being reported.
    Reporting { total: usize, index: usize, songs: Vec<LoadedSong> },
    /// The songs are being written to the cache.
    Storing { songs: Vec<LoadedSong> },
}

/// The scan of one directory, between two requests.
pub struct ScanSession {
    /// The path of the directory.
    pub path: String,
    /// Whether the songs are written to a cache at the end.
    pub cached: bool,
    /// Whether each loaded song is reported.
    pub reports: bool,
    /// How far the scan has come.
    pub stage: ScanStage,
}

/// Where a scan stands after a reply.
pub enum ScanStep {
    /// More is asked; the reply goes to the session given.
    Ask(ScanSession, ScanRequest),
    /// The scan is over: these are the songs that could be loaded.
    Done(LoadedSongs),
    /// The scan failed as a whole.
    Failed(LoadSongError),
}

impl ScanSession {
    /// The session at another stage.
    pub open spec fn at(self, stage: ScanStage) -> ScanSession {
        ScanSession { path: self.path, cached: self.cached, reports: self.reports, stage }
    }

    /// Whether `request` is what the session waits on.
    pub open spec fn asks(self, request: ScanRequest) -> bool {
        match self.stage {
            ScanStage::Checking => request is CheckDirectory,
            ScanStage::Listing => request is ListEntries,
            ScanStage::Loading { index, .. } => request == ScanRequest::LoadEntry(index),
            ScanStage::Reporting { total, index, songs } => songs.len() > 0 ==> request
                == ScanRequest::Report(songs@.last(), index, total),
            ScanStage::Storing { songs } => request matches ScanRequest::StoreAll(sent) && sent@
                == songs@,
        }
    }

    /// Whether `reply` answers what the session waits on.
    pub open spec fn answered_by(self, reply: ScanReply) -> bool {
        match self.stage {
            ScanStage::Checking => reply is DirectoryChecked,
            ScanStage::Listing => reply is EntriesListed,
            ScanStage::Loading { .. } => reply is EntryLoaded,
            ScanStage::Reporting { .. } => reply is Reported,
            ScanStage::Storing { .. } => reply is AllStored,
        }
    }

    /// Whether `next` is this scan at a later point.
    pub open spec fn goes_on_as(self, next: ScanSession) -> bool {
        next.path == self.path && next.cached == self.cached && next.reports == self.reports
    }

    /// What follows once all entries are through: the songs are done, or, with a cache,
    /// are first sent to it, all at once.
    pub open spec fn completes(self, songs: Seq<LoadedSong>, step: ScanStep) -> bool {
        if self.cached {
            &&& step matches ScanStep::Ask(next, request)
            &&& self.goes_on_as(next)
            &&& next.stage matches ScanStage::Storing { songs: kept }
            &&& kept@ == songs
            &&& next.asks(request)
        } else {
            step matches ScanStep::Done(found) && found.songs@ == songs
        }
    }

    /// What follows once the entries before `index` are through: the entry of that number
    /// is loaded, or, where there is none, the scan completes.
    pub open spec fn moves_on(
        self,
        total: usize,
        index: int,
        songs: Seq<LoadedSong>,
        step: ScanStep,
    ) -> bool {
        if index < total {
            &&& step matches ScanStep::Ask(next, request)
            &&& self.goes_on_as(next)
            &&& next.stage matches ScanStage::Loading { total: all, index: at, songs: kept }
            &&& all == total
            &&& at == index
            &&& kept@ == songs
            &&& next.asks(request)
        } else {
            self.completes(songs, step)
        }
    }

    /// What follows a reply that answers the session.
    ///
    /// - A path at which nothing lies, or that names no directory, fails the scan, and so
    ///   does a directory whose entries cannot be listed.
    /// - The entries are loaded one after another. One that cannot be loaded is passed
    ///   over; one that can is added to the songs, and reported where reports are wanted,
    ///   under the number of its entry and with the number of all entries.
    /// - With a cache, the songs are written to it once, after the last entry; a cache that
    ///   fails fails the scan.
    pub open spec fn yields(self, reply: ScanReply, step: ScanStep) -> bool
        recommends
            self.answered_by(reply),
    {
        match (self.stage, reply) {
            (ScanStage::Checking, ScanReply::DirectoryChecked { exists, is_directory }) => {
                if !exists {
                    step == ScanStep::Failed(LoadSongError::PathDoesNotExist(self.path))
                } else if !is_directory {
                    step == ScanStep::Failed(LoadSongError::NotADirectory(self.path))
                } else {
                    step == ScanStep::Ask(self.at(ScanStage::Listing), ScanRequest::ListEntries)
                }
            },
            (ScanStage::Listing, ScanReply::EntriesListed(listed)) => {
                match listed {
                    Ok(total) => self.moves_on(total, 0, Seq::empty(), step),
                    Err(error) => step == ScanStep::Failed(LoadSongError::IoError(error)),
                }
            },
            (ScanStage::Loading { total, index, songs }, ScanReply::EntryLoaded(loaded)) => {
                match loaded {
                    Ok(song) => if self.reports {
                        &&& step matches ScanStep::Ask(next, request)
                        &&& self.goes_on_as(next)
                        &&& next.stage matches ScanStage::Reporting {
                            total: all,
                            index: at,
                            songs: kept,
                        }
                        &&& all == total
                        &&& at == index
                        &&& kept@ == songs@.push(song)
                        &&& next.asks(request)
                    } else {
                        self.moves_on(total, index + 1, songs@.push(song), step)
                    },
                    Err(_) => self.moves_on(total, index + 1, songs@, step),
                }
            },
            (ScanStage::Reporting { total, index, songs }, ScanReply::Reported) => {
                self.moves_on(total, index + 1, songs@, step)
            },
            (ScanStage::Storing { songs }, ScanReply::AllStored(stored)) => {
                match stored {
                    Ok(()) => step matches ScanStep::Done(found) && found.songs == songs,
                    Err(error) => step == ScanStep::Failed(LoadSongError::CacheError(error)),
                }
            },
            _ => false,
        }
    }

    /// What follows a reply that does not answer the session: the same is asked again.
    /// (A report that has no song to tell of is passed over.)
    pub open spec fn repeats(self, step: ScanStep) -> bool {
        match self.stage {
            ScanStage::Reporting { total, index, songs } if songs.len() == 0 => self.moves_on(
                total,
                index + 1,
                songs@,
                step,
            ),
            _ => step matches ScanStep::Ask(next, request) && next == self && self.asks(request),
        }
    }

    /// The step once all entries are through.
    fn complete(path: String, cached: bool, reports: bool, songs: Vec<LoadedSong>) -> (step:
        ScanStep)
        ensures
            (ScanSession { path, cached, reports, stage: ScanStage::Checking }).completes(
                songs@,
                step,
            ),
    {
        if cached {
            let sent = clone_songs(&songs);
            ScanStep::Ask(
                ScanSession { path, cached, reports, stage: ScanStage::Storing { songs } },
                ScanRequest::StoreAll(sent),
            )
        } else {
            ScanStep::Done(LoadedSongs { songs })
        }
    }

    /// The step once the entries before `index` are through.
    fn move_on(
        path: String,
        cached: bool,
        reports: bool,
        total: usize,
        index: usize,
        songs: Vec<LoadedSong>,
    ) -> (step: ScanStep)
        ensures
            (ScanSession { path, cached, reports, stage: ScanStage::Checking }).moves_on(
                total,
                index as int,
                songs@,
                step,
            ),
    {
        if index < total {
            ScanStep::Ask(
                ScanSession {
                    path,
                    cached,
                    reports,
                    stage: ScanStage::Loading { total, index, songs },
                },
                ScanRequest::LoadEntry(index),
            )
        } else {
            Self::complete(path, cached, reports, songs)
        }
    }

    /// The step after the entry of number `index`, which may be the last that a number
    /// can name.
    fn move_past(
        path: String,
        cached: bool,
        reports: bool,
        total: usize,
        index: usize,
        songs: Vec<LoadedSong>,
    ) -> (step: ScanStep)
        ensures
            (ScanSession { path, cached, reports, stage: ScanStage::Checking }).moves_on(
                total,
                index + 1,
                songs@,
                step,
            ),
    {
        if index < total {
            Self::move_on(path, cached, reports, total, index + 1, songs)
        } else {
            Self::complete(path, cached, reports, songs)
        }
    }

    /// The step that asks again what the session waits on.
    fn repeat(self) -> (step: ScanStep)
        ensures
            self.repeats(step),
    {
        let ScanSession { path, cached, reports, stage } = self;
        match stage {
            ScanStage::Checking => ScanStep::Ask(
                ScanSession { path, cached, reports, stage: ScanStage::Checking },
                ScanRequest::CheckDirectory,
            ),
            ScanStage::Listing => ScanStep::Ask(
                ScanSession { path, cached, reports, stage: ScanStage::Listing },
                ScanRequest::ListEntries,
            ),
            ScanStage::Loading { total, index, songs } => ScanStep::Ask(
                ScanSession {
                    path,
                    cached,
                    reports,
                    stage: ScanStage::Loading { total, index, songs },
                },
                ScanRequest::LoadEntry(index),
            ),
            ScanStage::Reporting { total, index, songs } => {
                if songs.len() > 0 {
                    let told = songs[songs.len() - 1].clone();
                    ScanStep::Ask(
                        ScanSession {
                            path,
                            cached,
                            reports,
                            stage: ScanStage::Reporting { total, index, songs },
                        },
                        ScanRequest::Report(told, index, total),
                    )
                } else {
                    Self::move_past(path, cached, reports, total, index, songs)
                }
            },
            ScanStage::Storing { songs } => {
                let sent = clone_songs(&songs);
                ScanStep::Ask(
                    ScanSession { path, cached, reports, stage: ScanStage::Storing { songs } },
                    ScanRequest::StoreAll(sent),
                )
            },
        }
    }

    /// Takes the reply to what was asked, and says what follows.
    pub fn advance(self, reply: ScanReply) -> (step: ScanStep)
        ensures
            self.answered_by(reply) ==> self.yields(reply, step),
            !self.answered_by(reply) ==> self.repeats(step),
    {
        let ScanSession { path, cached, reports, stage } = self;
        match (stage, reply) {
            (ScanStage::Checking, ScanReply::DirectoryChecked { exists, is_directory }) => {
                if !exists {
                    ScanStep::Failed(LoadSongError::PathDoesNotExist(path))
                } else if !is_directory {
                    ScanStep::Failed(LoadSongError::NotADirectory(path))
                } else {
                    ScanStep::Ask(
                        ScanSession { path, cached, reports, stage: ScanStage::Listing },
                        ScanRequest::ListEntries,
                    )
                }
            },
            (ScanStage::Listing, ScanReply::EntriesListed(listed)) => {
                match listed {
                    Ok(total) => {
                        let songs: Vec<LoadedSong> = Vec::new();
                        assert(songs@ =~= Seq::<LoadedSong>::empty());
                        Self::move_on(path, cached, reports, total, 0, songs)
                    },
                    Err(error) => ScanStep::Failed(LoadSongError::IoError(error)),
                }
            },
            (ScanStage::Loading { total, index, songs }, ScanReply::EntryLoaded(loaded)) => {
                match loaded {
                    Ok(song) => {
                        let mut grown = songs;
                        let told = song.clone();
                        grown.push(song);
                        if reports {
                            ScanStep::Ask(
                                ScanSession {
                                    path,
                                    cached,
                                    reports,
                                    stage: ScanStage::Reporting { total, index, songs: grown },
                                },
                                ScanRequest::Report(told, index, total),
                            )
                        } else {
                            Self::move_past(path, cached, reports, total, index, grown)
                        }
                    },
                    Err(_) => Self::move_past(path, cached, reports, total, index, songs),
                }
            },
            (ScanStage::Reporting { total, index, songs }, ScanReply::Reported) => {
                Self::move_past(path, cached, reports, total, index, songs)
            },
            (ScanStage::Storing { songs }, ScanReply::AllStored(stored)) => {
                match stored {
                    Ok(()) => ScanStep::Done(LoadedSongs { songs }),
                    Err(error) => ScanStep::Failed(LoadSongError::CacheError(error)),
                }
            },
            (stage, _) => (ScanSession { path, cached, reports, stage }).repeat(),
        }
    }
}

/// Begins to scan the directory at `path` for packages: the path is checked first.
///
/// The caller does what each step asks and hands the reply to `advance`, until a step
/// says that the scan is done or that it failed.
pub fn load_song_directory(path: String, cached: bool, reports: bool) -> (step: ScanStep)
    ensures
        step == ScanStep::Ask(
            ScanSession { path, cached, reports, stage: ScanStage::Checking },
            ScanRequest::CheckDirectory,
        ),
{
    ScanStep::Ask(
        ScanSession { path, cached, reports, stage: ScanStage::Checking },
        ScanRequest::CheckDirectory,
    )
}

/// Answers from `cache` what a scan asks of a cache: the songs to store are given to the
/// cache, all at once, and the answer is what the cache said of them; where that is well,
/// each of them was cached. Any other request is handed back, for the caller to do, and
/// the cache is not touched.
pub fn answer_scan_from_cache<C: SongCache + ?Sized>(
    cache: &mut C,
    request: ScanRequest,
) -> (answer: Result<ScanReply, ScanRequest>)
    ensures
        match request {
            ScanRequest::StoreAll(songs) => answer matches Ok(ScanReply::AllStored(done)) && (done
                is Ok ==> all_cached::<C>(old(cache).songs(), songs@, final(cache).songs())),
            _ => answer == Err::<ScanReply, ScanRequest>(request) && final(cache).songs() == old(
                cache,
            ).songs(),
        },
{
    match request {
        ScanRequest::StoreAll(songs) => Ok(ScanReply::AllStored(cache.cache_songs(songs))),
        other => Err(other),
    }
}

/// What checking the first `count` of `found` comes to: the first path at which nothing
/// lies, or that names no directory, fails the check. Each of `found` is a path, whether
/// it exists, and whether it names a directory.
pub open spec fn directories_checked(found: Seq<(String, bool, bool)>, count: int) -> Option<
    LoadSongError,
>
    decreases count,
{
    if count <= 0 {
        None
    } else {
        match directories_checked(found, count - 1) {
            Some(error) => Some(error),
            None => if !found[count - 1].1 {
                Some(LoadSongError::PathDoesNotExist(found[count - 1].0))
            } else if !found[count - 1].2 {
                Some(LoadSongError::NotADirectory(found[count - 1].0))
            } else {
                None
            },
        }
    }
}

proof fn lemma_checked_stays(found: Seq<(String, bool, bool)>, count: int, later: int)
    requires
        0 <= count <= later,
        directories_checked(found, count) is Some,
    ensures
        directories_checked(found, later) == directories_checked(found, count),
    decreases later - count,
{
    if count < later {
        lemma_checked_stays(found, count, later - 1);
    }
}

/// Checks the directories of a scan over several: each of `found` is a path, whether it
/// exists, and whether it names a directory. The first path that does not, fails the scan
/// before anything is loaded.
pub fn check_song_directories(found: &Vec<(String, bool, bool)>) -> (checked: Result<
    (),
    LoadSongError,
>)
    ensures
        match directories_checked(found@, found.len() as int) {
            Some(error) => checked == Err::<(), LoadSongError>(error),
            None => checked is Ok,
        },
{
    let mut i: usize = 0;
    while i < found.len()
        invariant
            i <= found.len(),
            directories_checked(found@, i as int) is None,
        decreases found.len() - i,
    {
        if !found[i].1 {
            let path = found[i].0.clone();
            proof {
                assert(directories_checked(found@, i + 1) == Some(
                    LoadSongError::PathDoesNotExist(found[i as int].0),
                ));
                lemma_checked_stays(found@, i + 1, found.len() as int);
            }
            return Err(LoadSongError::PathDoesNotExist(path));
        }
        if !found[i].2 {
            let path = found[i].0.clone();
            proof {
                assert(directories_checked(found@, i + 1) == Some(
                    LoadSongError::NotADirectory(found[i as int].0),
                ));
                lemma_checked_stays(found@, i + 1, found.len() as int);
            }
            return Err(LoadSongError::NotADirectory(path));
        }
        i = i + 1;
    }
    Ok(())
}

/// The songs of a scan whose entries were loaded side by side: each load that went well,
/// in the order in which the outcomes are handed in. A load that failed is passed over.
pub fn load_song_directory_parallel(outcomes: Vec<Result<LoadedSong, LoadSongError>>) -> (found:
    LoadedSongs)
    ensures
        found.songs@ == loaded_songs(outcomes@),
{
    let mut songs: Vec<LoadedSong> = Vec::new();
    let ghost all = outcomes@;
    proof {
        assert(songs@ =~= loaded_songs(all.take(0)));
    }
    for outcome in it: outcomes
        invariant
            all == outcomes@,
            songs@ == loaded_songs(all.take(it.index() as int)),
    {
        proof {
            assert(all.take(it.index() + 1).drop_last() =~= all.take(it.index() as int));
        }
        match outcome {
            Ok(song) => {
                songs.push(song);
            },
            Err(_) => {},
        }
    }
    proof {
        assert(all.take(all.len() as int) =~= all);
    }
    LoadedSongs { songs }
}

/// What a scan hands out once its songs were sent to the cache: the songs, or, where the
/// cache failed, that failure as the failure of the scan.
pub fn scan_stored(found: LoadedSongs, stored: Result<(), CacheError>) -> (done: Result<
    LoadedSongs,
    LoadSongError,
>)
    ensures
        match stored {
            Ok(()) => done == Ok::<LoadedSongs, LoadSongError>(found),
            Err(error) => done == Err::<LoadedSongs, LoadSongError>(
                LoadSongError::CacheError(error),
            ),
        },
{
    match stored {
        Ok(()) => Ok(found),
        Err(error) => Err(LoadSongError::CacheError(error)),
    }
}

/// Writes the songs of a scan to `cache`, all at once, and hands them out as `scan_stored`
/// says: where the cache took them, each of them was cached, and they are handed out as
/// they came; where it did not, the failure of the cache is the failure of the scan.
pub fn cache_loaded_songs<C: SongCache + ?Sized>(found: LoadedSongs, cache: &mut C) -> (done:
    Result<LoadedSongs, LoadSongError>)
    ensures
        match done {
            Ok(kept) => kept == found && all_cached::<C>(
                old(cache).songs(),
                found.songs@,
                final(cache).songs(),
            ),
            Err(error) => error is CacheError,
        },
{
    let stored = cache.cache_songs(clone_songs(&found.songs));
    scan_stored(found, stored)
}

} // verus!
