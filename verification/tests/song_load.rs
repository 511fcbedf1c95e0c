use std::io::{Cursor, Write};
use std::time::Duration;

use song_load_rs::beatmap::{Beatmap, SourceReply, SourceRequest};
use song_load_rs::cache::mem_cache::MemCache;
use song_load_rs::cache::{CacheError, SongCache};
use song_load_rs::hash::{compute_custom_level_hash_from_info_dat, HashSession, HashStep};
use song_load_rs::models::{DifficultyBeatmap, DifficultyBeatmapSet, InfoDat};
use song_load_rs::song_load::{
    answer_from_cache, answer_scan_from_cache, cache_loaded_songs, check_song_directories,
    load_song_directory, load_song_directory_parallel, load_song_from_path, scan_stored, LoadReply,
    LoadRequest, LoadSongError, LoadStep, LoadedSong, LoadedSongs, ScanReply, ScanRequest,
    ScanStep,
};
use zip::write::SimpleFileOptions;
use zip::{CompressionMethod, ZipWriter};

const MANIFEST: &[u8] = b"{\"_songFilename\":\"song.ogg\",\"_difficultyBeatmapSets\":[{\"_difficultyBeatmaps\":[{\"_beatmapFilename\":\"Normal.dat\"}]}]}";
const SONG: &[u8] = b"OggS-not-really-audio";
const NORMAL: &[u8] = b"{\"_notes\":[]}";
const EXPECTED: &str = "777bfa36e6763b0c3d70ef3ef8e693c28e28d4c3";

fn decode(bytes: &[u8]) -> Result<InfoDat, String> {
    let text = std::str::from_utf8(bytes).map_err(|e| e.to_string())?;
    let value: serde_json::Value = serde_json::from_str(text).map_err(|e| e.to_string())?;
    let song_filename = value.get("_songFilename").and_then(|v| v.as_str()).map(|s| s.to_string());
    let difficulty_beatmap_sets = value.get("_difficultyBeatmapSets").and_then(|v| v.as_array()).map(|sets| {
        sets.iter()
            .map(|set| DifficultyBeatmapSet {
                difficulty_beatmaps: set
                    .get("_difficultyBeatmaps")
                    .and_then(|v| v.as_array())
                    .map(|maps| {
                        maps.iter()
                            .filter_map(|map| map.get("_beatmapFilename").and_then(|v| v.as_str()))
                            .map(|name| DifficultyBeatmap { beatmap_filename: name.to_string() })
                            .collect()
                    })
                    .unwrap_or_default(),
            })
            .collect()
    });
    Ok(InfoDat { song_filename, difficulty_beatmap_sets })
}

fn probe(bytes: &[u8]) -> Result<Option<Duration>, String> {
    if bytes.starts_with(b"OggS") {
        Ok(Some(Duration::new(228, 0)))
    } else {
        Err("unsupported format".to_string())
    }
}

fn archive_of(files: &[(&str, &[u8])]) -> Vec<u8> {
    let mut writer = ZipWriter::new(Cursor::new(Vec::new()));
    for (name, bytes) in files {
        let options = SimpleFileOptions::default().compression_method(CompressionMethod::Deflated);
        writer.start_file(*name, options).unwrap();
        writer.write_all(bytes).unwrap();
    }
    writer.finish().unwrap().into_inner()
}

/// Stands in for the file system: what lies at each path.
struct Disk {
    directories: Vec<(String, Vec<(String, Vec<u8>)>)>,
    archives: Vec<(String, Vec<u8>)>,
    reads: usize,
}

impl Disk {
    fn has(&self, path: &str) -> bool {
        self.directories.iter().any(|(p, _)| p == path) || self.archives.iter().any(|(p, _)| p == path)
    }

    fn open(&self, path: &str) -> Result<Beatmap, std::io::Error> {
        let file = self.archives.iter().find(|(p, _)| p == path).map(|(_, bytes)| bytes.clone());
        Beatmap::from_path(path.to_string(), self.has(path), file)
    }

    fn read(&mut self, root: &str, file: &str) -> Result<Vec<u8>, std::io::Error> {
        self.reads += 1;
        self.directories
            .iter()
            .find(|(p, _)| p == root)
            .and_then(|(_, files)| files.iter().find(|(name, _)| name == file))
            .map(|(_, bytes)| bytes.clone())
            .ok_or_else(|| std::io::Error::new(std::io::ErrorKind::NotFound, "no such file"))
    }

    fn from_source(&mut self, source: &mut Beatmap, request: SourceRequest) -> SourceReply {
        if let Some(reply) = source.answer(&request) {
            self.reads += 1;
            return reply;
        }
        let root = match source {
            Beatmap::Directory(root) => root.clone(),
            Beatmap::Zip(_) => String::new(),
        };
        match request {
            SourceRequest::ReadFile(path) => SourceReply::FileRead(self.read(&root, &path)),
            SourceRequest::ReadFiles(paths) => {
                SourceReply::FilesRead(paths.iter().map(|path| self.read(&root, path)).collect())
            }
            SourceRequest::DecodeManifest(bytes) => SourceReply::ManifestDecoded(decode(&bytes)),
        }
    }
}

fn load(disk: &mut Disk, path: &str, mut cache: Option<&mut dyn SongCacheLike>) -> Result<LoadedSong, LoadSongError> {
    let mut source: Option<Beatmap> = None;
    let mut step = load_song_from_path(path.to_string(), cache.is_some());
    loop {
        let (session, request) = match step {
            LoadStep::Done(song) => return Ok(song),
            LoadStep::Failed(error) => return Err(error),
            LoadStep::Ask(session, request) => (session, request),
        };
        let request = match cache.as_mut() {
            Some(cache) => match cache.answer(path, request) {
                Ok(reply) => {
                    step = session.advance(reply);
                    continue;
                }
                Err(request) => request,
            },
            None => request,
        };
        let reply = match request {
            LoadRequest::CheckPath => LoadReply::PathChecked(disk.has(path)),
            LoadRequest::OpenSource => LoadReply::SourceOpened(disk.open(path).map(|opened| {
                source = Some(opened);
            })),
            LoadRequest::Source(asked) => {
                LoadReply::Source(disk.from_source(source.as_mut().expect("an open source"), asked))
            }
            LoadRequest::Probe(bytes) => LoadReply::Probed(probe(&bytes)),
            LoadRequest::LookUp | LoadRequest::Store(_) => panic!("no cache was offered"),
        };
        step = session.advance(reply);
    }
}

/// A cache behind one method, so that `load` takes any.
trait SongCacheLike {
    fn answer(&mut self, path: &str, request: LoadRequest) -> Result<LoadReply, LoadRequest>;
}

impl<C: SongCache> SongCacheLike for C {
    fn answer(&mut self, path: &str, request: LoadRequest) -> Result<LoadReply, LoadRequest> {
        answer_from_cache(self, path, request)
    }
}

fn scan(disk: &mut Disk, path: &str, entries: &[&str], mut cache: Option<&mut MemCache>, reports: bool) -> (Result<LoadedSongs, LoadSongError>, Vec<(String, usize, usize)>) {
    let mut told = Vec::new();
    let mut step = load_song_directory(path.to_string(), cache.is_some(), reports);
    loop {
        let (session, request) = match step {
            ScanStep::Done(songs) => return (Ok(songs), told),
            ScanStep::Failed(error) => return (Err(error), told),
            ScanStep::Ask(session, request) => (session, request),
        };
        let request = match cache.as_mut() {
            Some(cache) => match answer_scan_from_cache(*cache, request) {
                Ok(reply) => {
                    step = session.advance(reply);
                    continue;
                }
                Err(request) => request,
            },
            None => request,
        };
        let reply = match request {
            ScanRequest::CheckDirectory => ScanReply::DirectoryChecked {
                exists: path != "/missing",
                is_directory: path != "/file",
            },
            ScanRequest::ListEntries => ScanReply::EntriesListed(Ok(entries.len())),
            ScanRequest::LoadEntry(index) => ScanReply::EntryLoaded(load(disk, entries[index], None)),
            ScanRequest::Report(song, index, total) => {
                told.push((song.path, index, total));
                ScanReply::Reported
            }
            ScanRequest::StoreAll(_) => panic!("no cache was offered"),
        };
        step = session.advance(reply);
    }
}

fn package() -> Vec<(String, Vec<u8>)> {
    vec![
        ("Info.dat".to_string(), MANIFEST.to_vec()),
        ("song.ogg".to_string(), SONG.to_vec()),
        ("Normal.dat".to_string(), NORMAL.to_vec()),
    ]
}

fn disk() -> Disk {
    Disk {
        directories: vec![
            ("/songs/dir".to_string(), package()),
            ("/songs/lower".to_string(), vec![
                ("info.dat".to_string(), MANIFEST.to_vec()),
                ("song.ogg".to_string(), SONG.to_vec()),
                ("Normal.dat".to_string(), NORMAL.to_vec()),
            ]),
            ("/songs/empty".to_string(), Vec::new()),
            ("/songs/no_song".to_string(), vec![
                ("Info.dat".to_string(), MANIFEST.to_vec()),
                ("Normal.dat".to_string(), NORMAL.to_vec()),
            ]),
            ("/songs/other_song".to_string(), vec![
                ("Info.dat".to_string(), MANIFEST.to_vec()),
                ("song.ogg".to_string(), b"OggS-another-song-altogether".to_vec()),
                ("Normal.dat".to_string(), NORMAL.to_vec()),
            ]),
            ("/songs/bad_song".to_string(), vec![
                ("Info.dat".to_string(), MANIFEST.to_vec()),
                ("song.ogg".to_string(), b"not audio".to_vec()),
                ("Normal.dat".to_string(), NORMAL.to_vec()),
            ]),
            ("/songs/bad_manifest".to_string(), vec![("Info.dat".to_string(), b"{ nope".to_vec())]),
            ("/songs/silent".to_string(), vec![
                ("Info.dat".to_string(), b"{\"_difficultyBeatmapSets\":[]}".to_vec()),
            ]),
        ],
        archives: vec![
            (
                "/songs/packed.zip".to_string(),
                archive_of(&[("Info.dat", MANIFEST), ("song.ogg", SONG), ("Normal.dat", NORMAL)]),
            ),
            ("/songs/junk.zip".to_string(), b"junk".to_vec()),
        ],
        reads: 0,
    }
}

fn hash_of(disk: &mut Disk, source: &mut Beatmap) -> Result<String, LoadSongError> {
    let mut step = HashSession::start();
    loop {
        step = match step {
            HashStep::Ask(session, request) => session.advance(disk.from_source(source, request)),
            HashStep::Done(hash, _) => return Ok(hash),
            HashStep::Failed(error) => return Err(error),
        };
    }
}

// The packages of these tests are made in memory, each time the same small package: a
// manifest, a song that a stand-in measures at 228 seconds, and one beatmap. The digest
// that is expected is that of this package.

#[test]
fn despacito_zip_hash() {
    let mut disk = disk();
    let mut beatmap = disk.open("/songs/packed.zip").unwrap();
    assert!(matches!(beatmap, Beatmap::Zip(_)));

    let hash = hash_of(&mut disk, &mut beatmap).unwrap();
    assert_eq!(hash, EXPECTED);
}

#[test]
fn despacito_dir_hash() {
    let mut disk = disk();
    let mut beatmap = disk.open("/songs/dir").unwrap();
    assert!(matches!(beatmap, Beatmap::Directory(_)));

    let hash = hash_of(&mut disk, &mut beatmap).unwrap();
    assert_eq!(hash, EXPECTED);
}

#[test]
fn load_song_from_zip_and_directory_match() {
    let mut disk = disk();
    let song_from_zip = load(&mut disk, "/songs/packed.zip", None).unwrap();
    let song_from_dir = load(&mut disk, "/songs/dir", None).unwrap();

    // The hashes should match
    assert_eq!(song_from_zip.hash, song_from_dir.hash);
    assert_eq!(song_from_zip.hash, EXPECTED);
    assert_eq!(song_from_zip.path, "/songs/packed.zip");
    assert_eq!(song_from_dir.path, "/songs/dir");
    assert_eq!(song_from_zip.song_length, Some(Duration::new(228, 0)));
    assert_eq!(song_from_dir.song_length, Some(Duration::new(228, 0)));
}

#[test]
fn load_agrees_with_the_hash_of_files_in_memory() {
    let mut disk = disk();
    let loaded = load(&mut disk, "/songs/dir", None).unwrap();
    let info = decode(MANIFEST).unwrap();
    let in_memory = compute_custom_level_hash_from_info_dat(&package(), &info, MANIFEST).unwrap();
    assert_eq!(loaded.hash, in_memory);
}

#[test]
fn load_finds_a_lower_case_manifest() {
    let mut disk = disk();
    assert_eq!(load(&mut disk, "/songs/lower", None).unwrap().hash, EXPECTED);
}

#[test]
fn load_twice_gives_the_same_hash() {
    let mut disk = disk();
    let first = load(&mut disk, "/songs/packed.zip", None).unwrap();
    let second = load(&mut disk, "/songs/packed.zip", None).unwrap();
    assert_eq!(first, second);
}

#[test]
fn load_fails_where_nothing_lies() {
    let mut disk = disk();
    match load(&mut disk, "/songs/nowhere", None) {
        Err(LoadSongError::PathDoesNotExist(path)) => assert_eq!(path, "/songs/nowhere"),
        _ => panic!("expected a missing path"),
    }
    assert_eq!(disk.reads, 0);
}

#[test]
fn load_fails_on_a_file_that_is_no_archive() {
    let mut disk = disk();
    assert!(matches!(load(&mut disk, "/songs/junk.zip", None), Err(LoadSongError::IoError(_))));
}

#[test]
fn load_fails_without_a_manifest() {
    let mut disk = disk();
    match load(&mut disk, "/songs/empty", None) {
        Err(LoadSongError::IoError(error)) => assert_eq!(error.kind(), std::io::ErrorKind::NotFound),
        _ => panic!("expected a failed read"),
    }
    // both names were tried
    assert_eq!(disk.reads, 2);
}

#[test]
fn load_fails_on_a_manifest_that_does_not_decode() {
    let mut disk = disk();
    assert!(matches!(load(&mut disk, "/songs/bad_manifest", None), Err(LoadSongError::DecodeError(_))));
}

#[test]
fn load_without_the_named_song_has_no_length() {
    let mut disk = disk();
    let loaded = load(&mut disk, "/songs/no_song", None).unwrap();
    assert_eq!(loaded.song_length, None);
    // the song is no part of the hash
    assert_eq!(loaded.hash, EXPECTED);
}

#[test]
fn load_with_another_song_has_the_same_hash() {
    let mut disk = disk();
    let loaded = load(&mut disk, "/songs/other_song", None).unwrap();
    assert_eq!(loaded.song_length, Some(Duration::new(228, 0)));
    assert_eq!(loaded.hash, EXPECTED);
}

#[test]
fn a_song_goes_into_the_cache_through_the_answer() {
    let mut cache = MemCache::new();
    let song = LoadedSong { path: "/a".to_string(), hash: "h".to_string(), song_length: None };
    match answer_from_cache(&mut cache, "/a", LoadRequest::Store(song.clone())) {
        Ok(LoadReply::Stored(Ok(()))) => {}
        _ => panic!("expected the song to be stored"),
    }
    assert_eq!(cache.get_cached_song("/a").unwrap(), Some(song.clone()));
    match answer_from_cache(&mut cache, "/a", LoadRequest::LookUp) {
        Ok(LoadReply::LookedUp(Ok(Some(found)))) => assert_eq!(found, song),
        _ => panic!("expected the song to be found"),
    }
    match answer_from_cache(&mut cache, "/b", LoadRequest::LookUp) {
        Ok(LoadReply::LookedUp(Ok(None))) => {}
        _ => panic!("expected nothing to be found"),
    }
    match answer_from_cache(&mut cache, "/a", LoadRequest::CheckPath) {
        Err(LoadRequest::CheckPath) => {}
        _ => panic!("expected the request to be handed back"),
    }
    assert_eq!(cache.get_cache().len(), 1);
}

#[test]
fn songs_go_into_the_cache_through_the_answer_of_a_scan() {
    let mut cache = MemCache::new();
    let one = LoadedSong { path: "/a".to_string(), hash: "1".to_string(), song_length: None };
    let two = LoadedSong { path: "/b".to_string(), hash: "2".to_string(), song_length: None };
    match answer_scan_from_cache(&mut cache, ScanRequest::StoreAll(vec![one.clone(), two.clone()])) {
        Ok(ScanReply::AllStored(Ok(()))) => {}
        _ => panic!("expected the songs to be stored"),
    }
    assert_eq!(cache.get_cached_song("/a").unwrap(), Some(one));
    assert_eq!(cache.get_cached_song("/b").unwrap(), Some(two));
    match answer_scan_from_cache(&mut cache, ScanRequest::ListEntries) {
        Err(ScanRequest::ListEntries) => {}
        _ => panic!("expected the request to be handed back"),
    }
    assert_eq!(cache.get_cache().len(), 2);
}

#[test]
fn load_fails_where_the_song_cannot_be_measured() {
    let mut disk = disk();
    match load(&mut disk, "/songs/bad_song", None) {
        Err(LoadSongError::ComputeHashError(words)) => assert_eq!(
            words,
            "Failed to get song length: Failed to get song length: unsupported format"
        ),
        _ => panic!("expected a failure to measure"),
    }
}

#[test]
fn load_without_a_song_has_no_length() {
    let mut disk = disk();
    let loaded = load(&mut disk, "/songs/silent", None).unwrap();
    assert_eq!(loaded.song_length, None);
    assert_eq!(loaded.hash, "5da525168ac289d43bf5b4a0b8c2ab3b8349d7a9");
}

#[test]
fn load_song_with_memcache() {
    let mut disk = disk();
    let zip_path = "/songs/packed.zip";

    // Create a MemCache and load with it
    let mut cache = MemCache::default();

    // First load - should compute and populate cache
    let loaded1 = load(&mut disk, zip_path, Some(&mut cache)).unwrap();

    // Cache should now contain the entry
    let cached = cache.get_cached_song(zip_path).unwrap();
    assert!(cached.is_some(), "expected cache to contain the loaded song");
    let cached = cached.unwrap();
    assert_eq!(cached.hash, loaded1.hash);

    // Second load should return the same data (and hit the cache)
    let reads = disk.reads;
    let loaded2 = load(&mut disk, zip_path, Some(&mut cache)).unwrap();
    assert_eq!(loaded1.hash, loaded2.hash);
    assert_eq!(disk.reads, reads, "a cached song was read again");

    // Also test directory-loading populates cache entries for songs in the directory
    let mut cache2 = MemCache::default();
    let entries = ["/songs/packed.zip", "/songs/dir", "/songs/junk.zip"];
    let (loaded_dir, _) = scan(&mut disk, "/songs", &entries, Some(&mut cache2), false);
    let loaded_dir = loaded_dir.unwrap();

    // Each loaded song should be cached
    for s in &loaded_dir.songs {
        let got = cache2.get_cached_song(&s.path).unwrap();
        assert!(got.is_some(), "song {:?} was not cached", s.path);
    }
}

#[test]
fn load_trusts_the_cache() {
    let mut disk = disk();
    let mut cache = MemCache::default();
    let stale = LoadedSong { path: "/songs/dir".to_string(), hash: "stale".to_string(), song_length: None };
    cache.cache_song(stale.clone()).unwrap();
    let loaded = load(&mut disk, "/songs/dir", Some(&mut cache)).unwrap();
    assert_eq!(loaded, stale);
    assert_eq!(disk.reads, 0);
}

#[test]
fn load_checks_the_path_before_the_cache() {
    let mut disk = disk();
    let mut cache = MemCache::default();
    cache
        .cache_song(LoadedSong { path: "/gone".to_string(), hash: "h".to_string(), song_length: None })
        .unwrap();
    assert!(matches!(load(&mut disk, "/gone", Some(&mut cache)), Err(LoadSongError::PathDoesNotExist(_))));
}

struct Broken;

impl SongCache for Broken {
    fn clear_cache(&mut self) -> Result<(), CacheError> {
        Err(CacheError::GeneralError("broken".to_string()))
    }

    fn reset_song_cache(&mut self, _song_path: &str) -> Result<(), CacheError> {
        Err(CacheError::GeneralError("broken".to_string()))
    }

    fn cache_song(&mut self, _loaded_song_data: LoadedSong) -> Result<(), CacheError> {
        Err(CacheError::GeneralError("cannot store".to_string()))
    }

    fn get_cached_song(&self, song_path: &str) -> Result<Option<LoadedSong>, CacheError> {
        if song_path == "/songs/dir" {
            Ok(None)
        } else {
            Err(CacheError::GeneralError("cannot look up".to_string()))
        }
    }
}

#[test]
fn load_fails_where_the_cache_fails() {
    let mut disk = disk();
    let mut cache = Broken;
    match load(&mut disk, "/songs/packed.zip", Some(&mut cache)) {
        Err(LoadSongError::CacheError(CacheError::GeneralError(words))) => assert_eq!(words, "cannot look up"),
        _ => panic!("expected the failure of the look-up"),
    }
    match load(&mut disk, "/songs/dir", Some(&mut cache)) {
        Err(LoadSongError::CacheError(CacheError::GeneralError(words))) => assert_eq!(words, "cannot store"),
        _ => panic!("expected the failure of the store"),
    }
}

#[test]
fn a_reply_that_does_not_answer_changes_nothing() {
    let step = load_song_from_path("/songs/dir".to_string(), false);
    let session = match step {
        LoadStep::Ask(session, LoadRequest::CheckPath) => session,
        _ => panic!("expected the path to be checked first"),
    };
    let session = match session.advance(LoadReply::Probed(Ok(None))) {
        LoadStep::Ask(session, LoadRequest::CheckPath) => session,
        _ => panic!("expected the same request again"),
    };
    match session.advance(LoadReply::PathChecked(true)) {
        LoadStep::Ask(_, LoadRequest::OpenSource) => {}
        _ => panic!("expected the source to be opened"),
    }
}

#[test]
fn hashing_asks_for_manifest_then_decoding_then_beatmaps() {
    let session = match HashSession::start() {
        HashStep::Ask(session, SourceRequest::ReadFile(name)) => {
            assert_eq!(name, "Info.dat");
            session
        }
        _ => panic!("expected the manifest to be asked for"),
    };
    let missing = std::io::Error::new(std::io::ErrorKind::NotFound, "none");
    let session = match session.advance(SourceReply::FileRead(Err(missing))) {
        HashStep::Ask(session, SourceRequest::ReadFile(name)) => {
            assert_eq!(name, "info.dat");
            session
        }
        _ => panic!("expected the second name to be asked for"),
    };
    let session = match session.advance(SourceReply::FileRead(Ok(MANIFEST.to_vec()))) {
        HashStep::Ask(session, SourceRequest::DecodeManifest(bytes)) => {
            assert_eq!(bytes, MANIFEST.to_vec());
            session
        }
        _ => panic!("expected the manifest to be decoded"),
    };
    let session = match session.advance(SourceReply::ManifestDecoded(decode(MANIFEST))) {
        HashStep::Ask(session, SourceRequest::ReadFiles(names)) => {
            assert_eq!(names, vec!["Normal.dat".to_string()]);
            session
        }
        _ => panic!("expected the beatmaps to be asked for"),
    };
    // a reply of the wrong length is no answer
    let session = match session.advance(SourceReply::FilesRead(Vec::new())) {
        HashStep::Ask(session, SourceRequest::ReadFiles(_)) => session,
        _ => panic!("expected the beatmaps to be asked for again"),
    };
    match session.advance(SourceReply::FilesRead(vec![Ok(NORMAL.to_vec())])) {
        HashStep::Done(hash, info) => {
            assert_eq!(hash, EXPECTED);
            assert_eq!(info.song_filename, Some("song.ogg".to_string()));
        }
        _ => panic!("expected the hash"),
    }
}

#[test]
fn load_song_directory_finds_songs() {
    let mut disk = disk();
    let entries = ["/songs/packed.zip", "/songs/dir", "/songs/lower"];
    let (loaded, _) = scan(&mut disk, "/songs", &entries, None, false);
    let loaded = loaded.unwrap();

    // Expect at least one song was found
    assert!(!loaded.songs.is_empty(), "no songs found in tests directory");

    // Ensure our known song is present with the expected hash
    let found = loaded.songs.iter().all(|s| s.hash == EXPECTED);
    assert!(found, "expected test song hash not found in loaded songs");
}

#[test]
fn scan_passes_over_what_cannot_be_loaded() {
    let mut disk = disk();
    let entries = [
        "/songs/junk.zip",
        "/songs/dir",
        "/songs/empty",
        "/songs/packed.zip",
        "/songs/nowhere",
        "/songs/bad_manifest",
        "/songs/lower",
    ];
    let mut cache = MemCache::default();
    let (loaded, told) = scan(&mut disk, "/songs", &entries, Some(&mut cache), true);
    let loaded = loaded.unwrap();
    let paths: Vec<&str> = loaded.songs.iter().map(|s| s.path.as_str()).collect();
    assert_eq!(paths, vec!["/songs/dir", "/songs/packed.zip", "/songs/lower"]);
    assert_eq!(cache.get_cache().len(), 3);
    for song in &loaded.songs {
        assert_eq!(cache.get_cached_song(&song.path).unwrap(), Some(song.clone()));
    }
    for failed in ["/songs/junk.zip", "/songs/empty", "/songs/nowhere", "/songs/bad_manifest"] {
        assert_eq!(cache.get_cached_song(failed).unwrap(), None);
    }
    assert_eq!(
        told,
        vec![
            ("/songs/dir".to_string(), 1, 7),
            ("/songs/packed.zip".to_string(), 3, 7),
            ("/songs/lower".to_string(), 6, 7),
        ]
    );
}

#[test]
fn scan_of_an_empty_directory_finds_nothing() {
    let mut disk = disk();
    let mut cache = MemCache::default();
    let (loaded, told) = scan(&mut disk, "/songs", &[], Some(&mut cache), true);
    assert!(loaded.unwrap().songs.is_empty());
    assert!(told.is_empty());
    assert!(cache.get_cache().is_empty());
}

#[test]
fn scan_fails_on_a_path_that_is_missing_or_no_directory() {
    let mut disk = disk();
    match scan(&mut disk, "/missing", &[], None, false).0 {
        Err(LoadSongError::PathDoesNotExist(path)) => assert_eq!(path, "/missing"),
        _ => panic!("expected a missing path"),
    }
    match scan(&mut disk, "/file", &[], None, false).0 {
        Err(LoadSongError::NotADirectory(path)) => assert_eq!(path, "/file"),
        _ => panic!("expected a path that is no directory"),
    }
}

#[test]
fn scan_fails_where_the_entries_cannot_be_listed() {
    let step = load_song_directory("/songs".to_string(), false, false);
    let session = match step {
        ScanStep::Ask(session, ScanRequest::CheckDirectory) => session,
        _ => panic!("expected the directory to be checked"),
    };
    let session = match session.advance(ScanReply::DirectoryChecked { exists: true, is_directory: true }) {
        ScanStep::Ask(session, ScanRequest::ListEntries) => session,
        _ => panic!("expected the entries to be listed"),
    };
    let denied = std::io::Error::new(std::io::ErrorKind::PermissionDenied, "denied");
    match session.advance(ScanReply::EntriesListed(Err(denied))) {
        ScanStep::Failed(LoadSongError::IoError(error)) => {
            assert_eq!(error.kind(), std::io::ErrorKind::PermissionDenied)
        }
        _ => panic!("expected the scan to fail"),
    }
}

#[test]
fn scan_fails_where_the_cache_fails() {
    let mut disk = disk();
    let mut step = load_song_directory("/songs".to_string(), true, false);
    let mut cache = Broken;
    let failed = loop {
        let (session, request) = match step {
            ScanStep::Ask(session, request) => (session, request),
            ScanStep::Done(_) => panic!("expected the scan to fail"),
            ScanStep::Failed(error) => break error,
        };
        let reply = match answer_scan_from_cache(&mut cache, request) {
            Ok(reply) => reply,
            Err(ScanRequest::CheckDirectory) => ScanReply::DirectoryChecked { exists: true, is_directory: true },
            Err(ScanRequest::ListEntries) => ScanReply::EntriesListed(Ok(1)),
            Err(ScanRequest::LoadEntry(_)) => ScanReply::EntryLoaded(load(&mut disk, "/songs/dir", None)),
            Err(_) => ScanReply::Reported,
        };
        step = session.advance(reply);
    };
    assert!(matches!(failed, LoadSongError::CacheError(CacheError::GeneralError(_))));
}

#[test]
fn parallel_scan_finds_the_songs_of_the_sequential_scan() {
    let mut disk = disk();
    let entries = ["/songs/junk.zip", "/songs/dir", "/songs/packed.zip", "/songs/empty", "/songs/lower"];
    let (sequential, _) = scan(&mut disk, "/songs", &entries, None, false);
    let mut sequential = sequential.unwrap().songs;

    // as the workers finish: in another order
    let finished = [4, 0, 2, 3, 1];
    let outcomes: Vec<_> = finished.iter().map(|&i| load(&mut disk, entries[i], None)).collect();
    let mut parallel = load_song_directory_parallel(outcomes).songs;
    let order: Vec<&str> = parallel.iter().map(|s| s.path.as_str()).collect();
    assert_eq!(order, vec!["/songs/lower", "/songs/packed.zip", "/songs/dir"]);

    sequential.sort();
    parallel.sort();
    assert_eq!(sequential, parallel);
}

#[test]
fn parallel_scan_writes_the_songs_to_the_cache_at_the_end() {
    let mut disk = disk();
    let outcomes = vec![
        load(&mut disk, "/songs/dir", None),
        load(&mut disk, "/songs/junk.zip", None),
        load(&mut disk, "/songs/packed.zip", None),
    ];
    let found = load_song_directory_parallel(outcomes);
    assert_eq!(found.songs.len(), 2);
    let mut cache = MemCache::default();
    let found = cache_loaded_songs(found, &mut cache).unwrap();
    assert_eq!(found.songs.len(), 2);
    assert_eq!(cache.get_cache().len(), 2);
    assert!(cache.get_cached_song("/songs/dir").unwrap().is_some());
    assert!(cache.get_cached_song("/songs/packed.zip").unwrap().is_some());
    let mut broken = Broken;
    assert!(matches!(cache_loaded_songs(found, &mut broken), Err(LoadSongError::CacheError(_))));
    let kept = scan_stored(LoadedSongs { songs: Vec::new() }, Ok(())).unwrap();
    assert!(kept.songs.is_empty());
    let failed = CacheError::GeneralError("full".to_string());
    match scan_stored(LoadedSongs { songs: Vec::new() }, Err(failed)) {
        Err(LoadSongError::CacheError(CacheError::GeneralError(words))) => assert_eq!(words, "full"),
        _ => panic!("expected the failure of the cache"),
    }
}

#[test]
fn directories_of_a_scan_are_checked_in_order() {
    let all = vec![("/a".to_string(), true, true), ("/b".to_string(), true, true)];
    assert!(check_song_directories(&all).is_ok());
    assert!(check_song_directories(&Vec::new()).is_ok());
    let second_missing = vec![
        ("/a".to_string(), true, true),
        ("/b".to_string(), false, false),
        ("/c".to_string(), true, false),
    ];
    match check_song_directories(&second_missing) {
        Err(LoadSongError::PathDoesNotExist(path)) => assert_eq!(path, "/b"),
        _ => panic!("expected the second path to fail"),
    }
    let first_is_file = vec![("/a".to_string(), true, false), ("/b".to_string(), false, false)];
    match check_song_directories(&first_is_file) {
        Err(LoadSongError::NotADirectory(path)) => assert_eq!(path, "/a"),
        _ => panic!("expected the first path to fail"),
    }
}
