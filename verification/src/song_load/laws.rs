//! What holds of the loading of a package, and of a directory of packages, whatever they
//! hold.

use vstd::prelude::*;
use vstd::seq_lib::to_multiset_build;
use std::time::Duration;
use crate::audio_load::failure_prefix;
use crate::beatmap::bytes_of;
use crate::beatmap::read_of;
use crate::beatmap::SourceReply;
use crate::cache::cached_all;
use crate::cache::lemma_all_cached;
use crate::cache::lookup;
use crate::cache::CacheError;
use crate::hash::laws::ends_in;
use crate::hash::laws::hash_of_package;
use crate::hash::laws::lemma_hashing_ends_as_the_package_says;
use crate::hash::laws::manifest_of;
use crate::hash::laws::owed;
use crate::hash::session::HashSession;
use crate::hash::session::HashStep;
use crate::models::InfoDat;
use crate::song_load::directory::loaded_songs;
use crate::song_load::directory::ScanReply;
use crate::song_load::directory::ScanSession;
use crate::song_load::directory::ScanStage;
use crate::song_load::directory::ScanStep;
use crate::song_load::LoadReply;
use crate::song_load::LoadRequest;
use crate::song_load::LoadSession;
use crate::song_load::LoadSongError;
use crate::song_load::LoadStage;
use crate::song_load::LoadStep;
use crate::song_load::LoadedSong;

verus! {

/// All that the loading of one package meets outside: what lies at the path, what the
/// cache holds and does, and how manifests decode and songs measure.
pub struct Surroundings {
    /// Whether anything lies at the path.
    pub exists: bool,
    /// What the cache gives when the path is looked up.
    pub found: Result<Option<LoadedSong>, CacheError>,
    /// What comes of opening the package.
    pub opened: Result<(), std::io::Error>,
    /// The files of the package that can be read, by path.
    pub files: Map<Seq<char>, Seq<u8>>,
    /// How the bytes of a manifest decode.
    pub decode: spec_fn(Seq<u8>) -> Result<InfoDat, String>,
    /// How the bytes of a song measure.
    pub probe: spec_fn(Seq<u8>) -> Result<Option<Duration>, String>,
    /// What comes of writing the loaded song to the cache.
    pub stored: Result<(), CacheError>,
}

/// Whether `reply` is what is owed to `session`, which asked `request`, in the
/// surroundings `around`.
pub open spec fn load_owed(
    session: LoadSession,
    request: LoadRequest,
    around: Surroundings,
    reply: LoadReply,
) -> bool {
    match session.stage {
        LoadStage::CheckingPath => reply == LoadReply::PathChecked(around.exists),
        LoadStage::LookingUp => reply == LoadReply::LookedUp(around.found),
        LoadStage::Opening => reply == LoadReply::SourceOpened(around.opened),
        LoadStage::Hashing(hashing) => reply matches LoadReply::Source(given) && owed(
            hashing,
            around.files,
            around.decode,
            given,
        ),
        LoadStage::ReadingSong { song, .. } => reply matches LoadReply::Source(
            SourceReply::FileRead(read),
        ) && bytes_of(read) == read_of(around.files, song@),
        LoadStage::Probing { .. } => request matches LoadRequest::Probe(bytes) && reply
            == LoadReply::Probed((around.probe)(bytes@)),
        LoadStage::Storing { .. } => reply == LoadReply::Stored(around.stored),
    }
}

/// Whether loading, from `session` on, which asked `request`, can end in `last` within
/// `steps` replies, each of them what is owed in the surroundings `around`.
pub open spec fn load_ends_in(
    session: LoadSession,
    request: LoadRequest,
    around: Surroundings,
    last: LoadStep,
    steps: nat,
) -> bool
    decreases steps,
{
    steps > 0 && exists|reply: LoadReply, step: LoadStep|
        #![trigger session.yields(reply, step)]
        load_owed(session, request, around, reply) && session.yields(reply, step) && match step {
            LoadStep::Ask(next, asked) => load_ends_in(
                next,
                asked,
                around,
                last,
                (steps - 1) as nat,
            ),
            _ => step == last,
        }
}

/// Whether `last` hands out, or fails to store, the song of `path` with the hash of the
/// text `hash` and the length `length`: with a cache the song is written to it first, and
/// a cache that fails fails the load.
pub open spec fn hands_out(
    path: String,
    cached: bool,
    hash: Seq<char>,
    length: Option<Duration>,
    around: Surroundings,
    last: LoadStep,
) -> bool {
    if cached && around.stored is Err {
        last == LoadStep::Failed(LoadSongError::CacheError(around.stored->Err_0))
    } else {
        last matches LoadStep::Done(loaded) && loaded.path == path && loaded.hash@ == hash
            && loaded.song_length == length
    }
}

/// Whether `last` is the end of measuring the song that `info` names, and of what follows.
/// A manifest that names no song, and a song that is named and is not there, give a song
/// of unknown length. A song that cannot be measured fails the load.
pub open spec fn ends_after_hash(
    path: String,
    cached: bool,
    hash: Seq<char>,
    info: InfoDat,
    around: Surroundings,
    last: LoadStep,
) -> bool {
    match info.song_filename {
        None => hands_out(path, cached, hash, None, around, last),
        Some(song) => match read_of(around.files, song@) {
            None => hands_out(path, cached, hash, None, around, last),
            Some(bytes) => match (around.probe)(bytes) {
                Ok(length) => hands_out(path, cached, hash, length, around, last),
                Err(words) => LoadSession::fails_on_length(last, failure_prefix() + words@),
            },
        },
    }
}

/// Whether `last` is the end of opening and hashing the package, and of what follows.
pub open spec fn ends_after_miss(
    path: String,
    cached: bool,
    around: Surroundings,
    last: LoadStep,
) -> bool {
    match around.opened {
        Err(error) => last == LoadStep::Failed(LoadSongError::IoError(error)),
        Ok(()) => match manifest_of(around.files) {
            None => last matches LoadStep::Failed(LoadSongError::IoError(_)),
            Some(bytes) => match (around.decode)(bytes) {
                Err(words) => last == LoadStep::Failed(LoadSongError::DecodeError(words)),
                Ok(info) => ends_after_hash(
                    path,
                    cached,
                    hash_of_package(around.files, info, bytes),
                    info,
                    around,
                    last,
                ),
            },
        },
    }
}

/// What loading a package comes to: whether `last` is the end that loading `path` has in
/// the surroundings `around`.
///
/// - Nothing at the path: the load fails.
/// - With a cache: what the cache holds for the path is the result, and a cache that
///   fails fails the load; the package is looked at only where the cache holds nothing.
/// - Else the package is opened and hashed, its song measured, and the song of the path
///   handed out, with the hash of the package and the length of its song.
pub open spec fn is_load_end(path: String, cached: bool, around: Surroundings, last: LoadStep) -> bool {
    if !around.exists {
        last == LoadStep::Failed(LoadSongError::PathDoesNotExist(path))
    } else if cached {
        match around.found {
            Err(error) => last == LoadStep::Failed(LoadSongError::CacheError(error)),
            Ok(Some(song)) => last == LoadStep::Done(song),
            Ok(None) => ends_after_miss(path, cached, around, last),
        }
    } else {
        ends_after_miss(path, cached, around, last)
    }
}

proof fn lemma_end_from_storing(
    session: LoadSession,
    request: LoadRequest,
    around: Surroundings,
    last: LoadStep,
    steps: nat,
)
    requires
        session.stage is Storing,
        session.cached,
        load_ends_in(session, request, around, last, steps),
    ensures
        session.stage matches LoadStage::Storing { loaded } && hands_out(
            loaded.path,
            true,
            loaded.hash@,
            loaded.song_length,
            around,
            last,
        ),
{
}

/// From a step that `finishes`: the song is handed out.
proof fn lemma_end_from_finish(
    session: LoadSession,
    hash: String,
    length: Option<Duration>,
    step: LoadStep,
    around: Surroundings,
    last: LoadStep,
    steps: nat,
)
    requires
        session.finishes(hash, length, step),
        match step {
            LoadStep::Ask(next, asked) => load_ends_in(next, asked, around, last, steps),
            _ => step == last,
        },
    ensures
        hands_out(session.path, session.cached, hash@, length, around, last),
{
    if let LoadStep::Ask(next, asked) = step {
        lemma_end_from_storing(next, asked, around, last, steps);
    }
}

proof fn lemma_end_from_probing(
    session: LoadSession,
    request: LoadRequest,
    around: Surroundings,
    last: LoadStep,
    steps: nat,
)
    requires
        session.stage is Probing,
        request is Probe,
        load_ends_in(session, request, around, last, steps),
    ensures
        session.stage matches LoadStage::Probing { hash, .. } && request matches LoadRequest::Probe(
            bytes,
        ) && match (around.probe)(bytes@) {
            Ok(length) => hands_out(session.path, session.cached, hash@, length, around, last),
            Err(words) => LoadSession::fails_on_length(last, failure_prefix() + words@),
        },
{
    let (reply, step) = choose|reply: LoadReply, step: LoadStep|
        #![trigger session.yields(reply, step)]
        load_owed(session, request, around, reply) && session.yields(reply, step) && match step {
            LoadStep::Ask(next, asked) => load_ends_in(
                next,
                asked,
                around,
                last,
                (steps - 1) as nat,
            ),
            _ => step == last,
        };
    if let LoadReply::Probed(Ok(length)) = reply {
        let hash = session.stage->Probing_hash;
        lemma_end_from_finish(session, hash, length, step, around, last, (steps - 1) as nat);
    }
}

proof fn lemma_end_from_reading_song(
    session: LoadSession,
    request: LoadRequest,
    around: Surroundings,
    last: LoadStep,
    steps: nat,
)
    requires
        session.stage is ReadingSong,
        load_ends_in(session, request, around, last, steps),
    ensures
        session.stage matches LoadStage::ReadingSong { hash, song } && match read_of(
            around.files,
            song@,
        ) {
            None => hands_out(session.path, session.cached, hash@, None, around, last),
            Some(bytes) => match (around.probe)(bytes) {
                Ok(length) => hands_out(session.path, session.cached, hash@, length, around, last),
                Err(words) => LoadSession::fails_on_length(last, failure_prefix() + words@),
            },
        },
{
    let (reply, step) = choose|reply: LoadReply, step: LoadStep|
        #![trigger session.yields(reply, step)]
        load_owed(session, request, around, reply) && session.yields(reply, step) && match step {
            LoadStep::Ask(next, asked) => load_ends_in(
                next,
                asked,
                around,
                last,
                (steps - 1) as nat,
            ),
            _ => step == last,
        };
    if let LoadReply::Source(SourceReply::FileRead(Ok(_))) = reply {
        if let LoadStep::Ask(next, asked) = step {
            lemma_end_from_probing(next, asked, around, last, (steps - 1) as nat);
        }
    } else {
        let hash = session.stage->ReadingSong_hash;
        lemma_end_from_finish(session, hash, None, step, around, last, (steps - 1) as nat);
    }
}

/// The hashing inside a load ends as hashing alone does, and the load goes on from there.
proof fn lemma_end_from_hashing(
    session: LoadSession,
    request: LoadRequest,
    around: Surroundings,
    last: LoadStep,
    steps: nat,
)
    requires
        session.stage is Hashing,
        load_ends_in(session, request, around, last, steps),
    ensures
        session.stage matches LoadStage::Hashing(hashing) && exists|ended: HashStep|
            #![trigger ends_in(hashing, around.files, around.decode, ended, steps)]
            ends_in(hashing, around.files, around.decode, ended, steps) && match ended {
                HashStep::Done(hash, info) => ends_after_hash(
                    session.path,
                    session.cached,
                    hash@,
                    info,
                    around,
                    last,
                ),
                HashStep::Failed(error) => last == LoadStep::Failed(error),
                HashStep::Ask(_, _) => false,
            },
    decreases steps,
{
    let hashing = session.stage->Hashing_0;
    let (reply, step) = choose|reply: LoadReply, step: LoadStep|
        #![trigger session.yields(reply, step)]
        load_owed(session, request, around, reply) && session.yields(reply, step) && match step {
            LoadStep::Ask(next, asked) => load_ends_in(
                next,
                asked,
                around,
                last,
                (steps - 1) as nat,
            ),
            _ => step == last,
        };
    let given = reply->Source_0;
    let hashed = choose|hashed: HashStep| #[trigger]
        hashing.yields(given, hashed) && session.follows_hashing(hashed, step);
    match hashed {
        HashStep::Ask(next_hashing, _) => {
            let next = step->Ask_0;
            let asked = step->Ask_1;
            lemma_end_from_hashing(next, asked, around, last, (steps - 1) as nat);
            let ended = choose|ended: HashStep|
                #![trigger ends_in(next_hashing, around.files, around.decode, ended, (steps - 1) as nat)]
                ends_in(next_hashing, around.files, around.decode, ended, (steps - 1) as nat)
                    && match ended {
                    HashStep::Done(hash, info) => ends_after_hash(
                        session.path,
                        session.cached,
                        hash@,
                        info,
                        around,
                        last,
                    ),
                    HashStep::Failed(error) => last == LoadStep::Failed(error),
                    HashStep::Ask(_, _) => false,
                };
            assert(ends_in(hashing, around.files, around.decode, ended, steps));
        },
        HashStep::Failed(error) => {
            assert(ends_in(hashing, around.files, around.decode, hashed, steps));
        },
        HashStep::Done(hash, info) => {
            assert(ends_in(hashing, around.files, around.decode, hashed, steps));
            match info.song_filename {
                Some(song) => {
                    let next = step->Ask_0;
                    let asked = step->Ask_1;
                    lemma_end_from_reading_song(next, asked, around, last, (steps - 1) as nat);
                },
                None => {
                    lemma_end_from_finish(
                        session,
                        hash,
                        None,
                        step,
                        around,
                        last,
                        (steps - 1) as nat,
                    );
                },
            }
        },
    }
}

proof fn lemma_end_from_opening(
    session: LoadSession,
    request: LoadRequest,
    around: Surroundings,
    last: LoadStep,
    steps: nat,
)
    requires
        session.stage is Opening,
        load_ends_in(session, request, around, last, steps),
    ensures
        ends_after_miss(session.path, session.cached, around, last),
{
    let (reply, step) = choose|reply: LoadReply, step: LoadStep|
        #![trigger session.yields(reply, step)]
        load_owed(session, request, around, reply) && session.yields(reply, step) && match step {
            LoadStep::Ask(next, asked) => load_ends_in(
                next,
                asked,
                around,
                last,
                (steps - 1) as nat,
            ),
            _ => step == last,
        };
    if let LoadStep::Ask(next, asked) = step {
        let before = (steps - 1) as nat;
        lemma_end_from_hashing(next, asked, around, last, before);
        let start = HashSession::ReadingManifest { fallback: false };
        let ended = choose|ended: HashStep|
            #![trigger ends_in(start, around.files, around.decode, ended, before)]
            ends_in(start, around.files, around.decode, ended, before) && match ended {
                HashStep::Done(hash, info) => ends_after_hash(
                    session.path,
                    session.cached,
                    hash@,
                    info,
                    around,
                    last,
                ),
                HashStep::Failed(error) => last == LoadStep::Failed(error),
                HashStep::Ask(_, _) => false,
            };
        lemma_hashing_ends_as_the_package_says(start, around.files, around.decode, ended, before);
    }
}

/// Loading a package comes to what its surroundings say, and to nothing else: however the
/// replies are spread over the steps, the load of `path` ends as `is_load_end` says.
pub proof fn lemma_loading_ends_as_the_surroundings_say(
    path: String,
    cached: bool,
    around: Surroundings,
    last: LoadStep,
    steps: nat,
)
    requires
        load_ends_in(
            LoadSession { path, cached, stage: LoadStage::CheckingPath },
            LoadRequest::CheckPath,
            around,
            last,
            steps,
        ),
    ensures
        is_load_end(path, cached, around, last),
{
    let session = LoadSession { path, cached, stage: LoadStage::CheckingPath };
    let (reply, step) = choose|reply: LoadReply, step: LoadStep|
        #![trigger session.yields(reply, step)]
        load_owed(session, LoadRequest::CheckPath, around, reply) && session.yields(reply, step)
            && match step {
            LoadStep::Ask(next, asked) => load_ends_in(
                next,
                asked,
                around,
                last,
                (steps - 1) as nat,
            ),
            _ => step == last,
        };
    if let LoadStep::Ask(next, asked) = step {
        let before = (steps - 1) as nat;
        if next.stage is LookingUp {
            let (looked, then) = choose|looked: LoadReply, then: LoadStep|
                #![trigger next.yields(looked, then)]
                load_owed(next, asked, around, looked) && next.yields(looked, then) && match then {
                    LoadStep::Ask(after, wanted) => load_ends_in(
                        after,
                        wanted,
                        around,
                        last,
                        (before - 1) as nat,
                    ),
                    _ => then == last,
                };
            if let LoadStep::Ask(after, wanted) = then {
                lemma_end_from_opening(after, wanted, around, last, (before - 1) as nat);
            }
        } else {
            lemma_end_from_opening(next, asked, around, last, before);
        }
    }
}

/// All that the scan of a directory meets outside: what lies at the path, what loading
/// each entry comes to, and what the cache does.
pub struct Directory {
    /// Whether anything lies at the path.
    pub exists: bool,
    /// Whether the path names a directory.
    pub is_directory: bool,
    /// What comes of listing the entries: how many there are.
    pub listed: Result<usize, std::io::Error>,
    /// What loading each entry comes to, by the number of the entry.
    pub entries: Seq<Result<LoadedSong, LoadSongError>>,
    /// What comes of writing the songs to the cache.
    pub stored: Result<(), CacheError>,
    /// What the cache holds before the scan.
    pub held_before: Map<Seq<char>, LoadedSong>,
    /// What the cache holds after the scan.
    pub held_after: Map<Seq<char>, LoadedSong>,
}

/// Whether `reply` is what is owed to `session` by the directory `around`. The cache is
/// one that, where it takes the songs, holds them as `cached_all` says, as a cache in
/// memory does.
pub open spec fn scan_owed(session: ScanSession, around: Directory, reply: ScanReply) -> bool {
    match session.stage {
        ScanStage::Checking => reply == (ScanReply::DirectoryChecked {
            exists: around.exists,
            is_directory: around.is_directory,
        }),
        ScanStage::Listing => reply == ScanReply::EntriesListed(around.listed),
        ScanStage::Loading { index, .. } => index < around.entries.len() && reply
            == ScanReply::EntryLoaded(around.entries[index as int]),
        ScanStage::Reporting { .. } => reply is Reported,
        ScanStage::Storing { songs } => reply == ScanReply::AllStored(around.stored) && (
        around.stored is Ok ==> around.held_after == cached_all(around.held_before, songs@)),
    }
}

/// Whether a scan, from `session` on, can end in `last` within `steps` replies, each of
/// them what is owed by the directory `around`.
pub open spec fn scan_ends_in(session: ScanSession, around: Directory, last: ScanStep, steps: nat) -> bool
    decreases steps,
{
    steps > 0 && exists|reply: ScanReply, step: ScanStep|
        #![trigger session.yields(reply, step)]
        scan_owed(session, around, reply) && session.yields(reply, step) && match step {
            ScanStep::Ask(next, _) => scan_ends_in(next, around, last, (steps - 1) as nat),
            _ => step == last,
        }
}

/// Whether `last` hands out the songs `songs`: with a cache they are written to it first,
/// all at once, so that the cache then holds them beside what it held; and a cache that
/// fails fails the scan.
pub open spec fn hands_out_songs(
    cached: bool,
    songs: Seq<LoadedSong>,
    around: Directory,
    last: ScanStep,
) -> bool {
    if cached && around.stored is Err {
        last == ScanStep::Failed(LoadSongError::CacheError(around.stored->Err_0))
    } else {
        &&& last matches ScanStep::Done(found) && found.songs@ == songs
        &&& cached ==> around.held_after == cached_all(around.held_before, songs)
    }
}

/// What the scan of a directory comes to: whether `last` is the end that scanning `path`
/// has with the directory `around`. A path at which nothing lies, or that names no
/// directory, and entries that cannot be listed, fail the scan. Else the songs of the
/// entries that could be loaded are handed out, in the order of the entries, whatever
/// became of the other entries.
pub open spec fn is_scan_end(path: String, cached: bool, around: Directory, last: ScanStep) -> bool {
    if !around.exists {
        last == ScanStep::Failed(LoadSongError::PathDoesNotExist(path))
    } else if !around.is_directory {
        last == ScanStep::Failed(LoadSongError::NotADirectory(path))
    } else {
        match around.listed {
            Err(error) => last == ScanStep::Failed(LoadSongError::IoError(error)),
            Ok(_) => hands_out_songs(cached, loaded_songs(around.entries), around, last),
        }
    }
}

/// Whether the songs that `stage` holds are those of the entries that are through.
pub open spec fn holds_what_loaded(stage: ScanStage, around: Directory) -> bool {
    match stage {
        ScanStage::Checking => false,
        ScanStage::Listing => false,
        ScanStage::Loading { total, index, songs } => total == around.entries.len() && index
            < total && songs@ == loaded_songs(around.entries.take(index as int)),
        ScanStage::Reporting { total, index, songs } => total == around.entries.len() && index
            < total && songs@ == loaded_songs(around.entries.take(index + 1)),
        ScanStage::Storing { songs } => songs@ == loaded_songs(around.entries),
    }
}

proof fn lemma_end_of_entries(session: ScanSession, around: Directory, last: ScanStep, steps: nat)
    requires
        holds_what_loaded(session.stage, around),
        session.stage is Storing ==> session.cached,
        scan_ends_in(session, around, last, steps),
    ensures
        hands_out_songs(session.cached, loaded_songs(around.entries), around, last),
    decreases steps,
{
    let (reply, step) = choose|reply: ScanReply, step: ScanStep|
        #![trigger session.yields(reply, step)]
        scan_owed(session, around, reply) && session.yields(reply, step) && match step {
            ScanStep::Ask(next, _) => scan_ends_in(next, around, last, (steps - 1) as nat),
            _ => step == last,
        };
    let entries = around.entries;
    assert(entries.take(entries.len() as int) =~= entries);
    match session.stage {
        ScanStage::Loading { total, index, songs } => {
            assert(entries.take(index + 1).drop_last() =~= entries.take(index as int));
            assert(entries.take(index + 1).last() == entries[index as int]);
        },
        _ => {},
    }
    if let ScanStep::Ask(next, _) = step {
        lemma_end_of_entries(next, around, last, (steps - 1) as nat);
    }
}

/// The scan of a directory comes to what the directory says, and to nothing else: however
/// the replies are spread over the steps, the scan of `path` ends as `is_scan_end` says.
/// So the songs handed out are as many as the entries that could be loaded, no entry that
/// could not be loaded fails the scan, and a cache that took the songs holds them.
pub proof fn lemma_scan_ends_as_the_directory_says(
    path: String,
    cached: bool,
    reports: bool,
    around: Directory,
    last: ScanStep,
    steps: nat,
)
    requires
        around.listed matches Ok(total) ==> total == around.entries.len(),
        scan_ends_in(
            ScanSession { path, cached, reports, stage: ScanStage::Checking },
            around,
            last,
            steps,
        ),
    ensures
        is_scan_end(path, cached, around, last),
{
    let session = ScanSession { path, cached, reports, stage: ScanStage::Checking };
    let (reply, step) = choose|reply: ScanReply, step: ScanStep|
        #![trigger session.yields(reply, step)]
        scan_owed(session, around, reply) && session.yields(reply, step) && match step {
            ScanStep::Ask(next, _) => scan_ends_in(next, around, last, (steps - 1) as nat),
            _ => step == last,
        };
    if let ScanStep::Ask(listing, _) = step {
        let before = (steps - 1) as nat;
        let (listed, then) = choose|listed: ScanReply, then: ScanStep|
            #![trigger listing.yields(listed, then)]
            scan_owed(listing, around, listed) && listing.yields(listed, then) && match then {
                ScanStep::Ask(next, _) => scan_ends_in(next, around, last, (before - 1) as nat),
                _ => then == last,
            };
        let entries = around.entries;
        assert(entries.take(0) =~= Seq::<Result<LoadedSong, LoadSongError>>::empty());
        assert(entries.take(entries.len() as int) =~= entries);
        if let ScanStep::Ask(next, _) = then {
            lemma_end_of_entries(next, around, last, (before - 1) as nat);
        }
    }
}

/// After a scan with a cache that was empty, the cache holds the songs that were found
/// and no others: each song that was found is held under its path (of two with one path,
/// the later), and a path of none of them, such as that of an entry that could not be
/// loaded, is not held.
pub proof fn lemma_scan_fills_an_empty_cache(
    path: String,
    reports: bool,
    around: Directory,
    last: ScanStep,
    steps: nat,
)
    requires
        around.listed matches Ok(total) ==> total == around.entries.len(),
        around.held_before == Map::<Seq<char>, LoadedSong>::empty(),
        last is Done,
        scan_ends_in(
            ScanSession { path, cached: true, reports, stage: ScanStage::Checking },
            around,
            last,
            steps,
        ),
    ensures
        last matches ScanStep::Done(found) && found.songs@ == loaded_songs(around.entries)
            && forall|i: int|
            0 <= i < found.songs@.len() && (forall|j: int|
                i < j < found.songs@.len() ==> (#[trigger] found.songs@[j]).path@
                    != found.songs@[i].path@) ==> lookup(
                around.held_after,
                (#[trigger] found.songs@[i]).path@,
            ) == Some(found.songs@[i]),
        forall|other: Seq<char>|
            (forall|i: int|
                0 <= i < loaded_songs(around.entries).len() ==> (#[trigger] loaded_songs(
                    around.entries,
                )[i]).path@ != other) ==> !(#[trigger] around.held_after.contains_key(other)),
{
    lemma_scan_ends_as_the_directory_says(path, true, reports, around, last, steps);
    let songs = loaded_songs(around.entries);
    lemma_all_cached(around.held_before, songs);
    assert forall|other: Seq<char>|
        (forall|i: int| 0 <= i < songs.len() ==> (#[trigger] songs[i]).path@ != other) implies !(
    #[trigger] around.held_after.contains_key(other)) by {
        assert(lookup(cached_all(around.held_before, songs), other) == lookup(
            around.held_before,
            other,
        ));
    }
}

proof fn lemma_loaded_counts(outcomes: Seq<Result<LoadedSong, LoadSongError>>, song: LoadedSong)
    ensures
        loaded_songs(outcomes).to_multiset().count(song) == outcomes.to_multiset().count(
            Ok(song),
        ),
    decreases outcomes.len(),
{
    broadcast use vstd::multiset::group_multiset_axioms;

    if outcomes.len() == 0 {
        assert(outcomes.to_multiset().len() == 0) by {
            outcomes.to_multiset_ensures();
        }
        assert(loaded_songs(outcomes).to_multiset().len() == 0) by {
            loaded_songs(outcomes).to_multiset_ensures();
        }
    } else {
        let front = outcomes.drop_last();
        lemma_loaded_counts(front, song);
        assert(outcomes =~= front.push(outcomes.last()));
        to_multiset_build(front, outcomes.last());
        match outcomes.last() {
            Ok(loaded) => {
                to_multiset_build(loaded_songs(front), loaded);
            },
            Err(_) => {},
        }
    }
}

/// The order in which the loads end does not change what is found: outcomes that are the
/// same but for their order give the same songs, but for their order.
pub proof fn lemma_same_songs_in_any_order(
    one: Seq<Result<LoadedSong, LoadSongError>>,
    other: Seq<Result<LoadedSong, LoadSongError>>,
)
    requires
        one.to_multiset() == other.to_multiset(),
    ensures
        loaded_songs(one).to_multiset() == loaded_songs(other).to_multiset(),
{
    assert forall|song: LoadedSong|
        loaded_songs(one).to_multiset().count(song) == loaded_songs(other).to_multiset().count(
            song,
        ) by {
        lemma_loaded_counts(one, song);
        lemma_loaded_counts(other, song);
    }
    assert(loaded_songs(one).to_multiset() =~= loaded_songs(other).to_multiset());
}

} // verus!
