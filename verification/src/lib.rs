//! Identifies level packages by the hash of their contents, and remembers the hashes.
//!
//! A package is an archive or a directory that holds a manifest, a song and beatmap files.
//! Its hash is the SHA-1 digest of the manifest followed by the beatmap files that the
//! manifest lists, in the order of the manifest. Loading a package, or a directory of
//! them, is laid out as a run of steps: each step asks for one thing to be done (a path to
//! be checked, a file to be read) and takes the outcome, so that every decision is made
//! here and every touch of the file system is left to the caller.

pub mod audio_load;
pub mod beatmap;
pub mod cache;
pub mod hash;
pub mod models;
pub mod song_load;
