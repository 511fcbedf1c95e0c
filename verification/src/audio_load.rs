//! The length of a package's song: what is read and measured, and what each outcome means.

use vstd::prelude::*;
use std::time::Duration;
use crate::models::InfoDat;

verus! {

/// Where finding the length of a package's song stands.
pub enum SongLengthStep {
    /// The song file at this path is to be read.
    ReadSong(String),
    /// These bytes, the song, are to be measured.
    Probe(Vec<u8>),
    /// The length is settled: known, or unknown where there is no song to measure, or not
    /// to be had because the song does not measure, with the reason.
    Done(Result<Option<Duration>, String>),
}

/// What stands before the words of a failure to measure.
pub open spec fn failure_prefix() -> Seq<char> {
    "Failed to get song length: "@
}

/// Begins to find the length of the song of a package. A manifest that names no song
/// settles it at once: the length is unknown, and that is no failure. Else the song file
/// is to be read.
pub fn get_song_length(info: &InfoDat) -> (step: SongLengthStep)
    ensures
        match info.song_filename {
            Some(name) => step == SongLengthStep::ReadSong(name),
            None => step == SongLengthStep::Done(Ok(None)),
        },
{
    match &info.song_filename {
        Some(name) => SongLengthStep::ReadSong(name.clone()),
        None => SongLengthStep::Done(Ok(None)),
    }
}

/// Takes the outcome of reading the song file: its bytes are to be measured. A song that
/// the manifest names and that is not there settles it: the length is unknown, and that is
/// no failure.
pub fn song_length_from_read(read: Result<Vec<u8>, std::io::Error>) -> (step: SongLengthStep)
    ensures
        match read {
            Ok(bytes) => step == SongLengthStep::Probe(bytes),
            Err(_) => step == SongLengthStep::Done(Ok(None)),
        },
{
    match read {
        Ok(bytes) => SongLengthStep::Probe(bytes),
        Err(_) => SongLengthStep::Done(Ok(None)),
    }
}

/// Takes the outcome of measuring the song: the length, or the failure with
/// `failure_prefix` before its words.
pub fn song_length_from_probe(probed: Result<Option<Duration>, String>) -> (step: SongLengthStep)
    ensures
        match probed {
            Ok(length) => step == SongLengthStep::Done(Ok(length)),
            Err(words) => step matches SongLengthStep::Done(Err(said)) && said@
                == failure_prefix() + words@,
        },
{
    match probed {
        Ok(length) => SongLengthStep::Done(Ok(length)),
        Err(words) => {
            let said = String::from_str("Failed to get song length: ").concat(words.as_str());
            SongLengthStep::Done(Err(said))
        },
    }
}

} // verus!
