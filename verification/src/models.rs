//! The manifest of a package.

use vstd::prelude::*;

verus! {

/// One difficulty of a level: the file that holds its notes.
#[derive(Debug)]
pub struct DifficultyBeatmap {
    pub beatmap_filename: String,
}

/// The difficulties of one characteristic, in the order of the manifest.
#[derive(Debug)]
pub struct DifficultyBeatmapSet {
    pub difficulty_beatmaps: Vec<DifficultyBeatmap>,
}

/// The manifest of a level package, as far as hashing and loading read it.
#[derive(Debug)]
pub struct InfoDat {
    pub song_filename: Option<String>,
    pub difficulty_beatmap_sets: Option<Vec<DifficultyBeatmapSet>>,
}

impl DifficultyBeatmapSet {
    /// The beatmap file names of this set, in order.
    pub open spec fn file_names(&self) -> Seq<Seq<char>> {
        self.difficulty_beatmaps@.map_values(|b: DifficultyBeatmap| b.beatmap_filename@)
    }
}

/// The beatmap file names of the sets, set by set and in each set beatmap by beatmap.
pub open spec fn set_file_names(sets: Seq<DifficultyBeatmapSet>) -> Seq<Seq<char>> {
    sets.map_values(|s: DifficultyBeatmapSet| s.file_names()).flatten()
}

impl InfoDat {
    /// The song file name as a list of zero or one names.
    pub open spec fn song_files(&self) -> Seq<Seq<char>> {
        match self.song_filename {
            Some(name) => seq![name@],
            None => Seq::empty(),
        }
    }

    /// Every beatmap file name of the manifest, sets first and beatmaps within.
    pub open spec fn beatmap_files(&self) -> Seq<Seq<char>> {
        match self.difficulty_beatmap_sets {
            Some(sets) => set_file_names(sets@),
            None => Seq::empty(),
        }
    }

    /// The files that a package needs: the song, where it names one, then the beatmaps.
    pub open spec fn necessary_files(&self) -> Seq<Seq<char>> {
        self.song_files() + self.beatmap_files()
    }
}

} // verus!
