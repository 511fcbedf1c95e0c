use song_load_rs::cache::file_cache::FileCache;
use song_load_rs::cache::CacheError;
use song_load_rs::song_load::LoadedSong;

fn song(path: &str, hash: &str) -> LoadedSong {
    LoadedSong { path: path.to_string(), hash: hash.to_string(), song_length: None }
}

fn denied() -> std::io::Error {
    std::io::Error::new(std::io::ErrorKind::PermissionDenied, "denied")
}

#[test]
fn a_new_file_cache_is_empty() {
    let cache = FileCache::new("/tmp/cache.json".to_string());
    assert_eq!(cache.path, "/tmp/cache.json");
    assert!(cache.save_to_file().is_empty());
    assert_eq!(cache.get_cached_song("/a").unwrap(), None);
}

#[test]
fn what_is_saved_is_what_a_fresh_cache_loads() {
    let mut cache = FileCache::new("/tmp/cache.json".to_string());
    cache.cache_song(song("/a", "1")).unwrap();
    cache.cache_songs(vec![song("/b", "2"), song("/c", "3")]).unwrap();
    cache.reset_song_cache("/b").unwrap();
    let saved = cache.save_to_file();
    assert_eq!(saved, vec![("/a".to_string(), song("/a", "1")), ("/c".to_string(), song("/c", "3"))]);

    let mut fresh = FileCache::new("/tmp/cache.json".to_string());
    fresh.reload_cache(Ok(saved)).unwrap();
    assert_eq!(fresh.save_to_file(), cache.save_to_file());
    assert_eq!(fresh.get_cached_song("/a").unwrap(), Some(song("/a", "1")));
    assert_eq!(fresh.get_cached_song("/b").unwrap(), None);
    assert_eq!(fresh.get_cached_song("/c").unwrap(), Some(song("/c", "3")));
}

#[test]
fn loading_replaces_all_that_was_held() {
    let mut cache = FileCache::new("/tmp/cache.json".to_string());
    cache.cache_song(song("/old", "old")).unwrap();
    cache.load_from_file(Ok(vec![("/new".to_string(), song("/new", "new"))])).unwrap();
    assert_eq!(cache.get_cached_song("/old").unwrap(), None);
    assert_eq!(cache.get_cached_song("/new").unwrap(), Some(song("/new", "new")));
    assert_eq!(cache.path, "/tmp/cache.json");
}

#[test]
fn a_failed_load_leaves_the_cache_as_it_was() {
    let mut cache = FileCache::new("/tmp/cache.json".to_string());
    cache.cache_song(song("/a", "1")).unwrap();
    let failed = cache.load_from_file(Err(denied())).unwrap_err();
    assert_eq!(failed.kind(), std::io::ErrorKind::PermissionDenied);
    assert_eq!(cache.get_cached_song("/a").unwrap(), Some(song("/a", "1")));
    match cache.reload_cache(Err(denied())) {
        Err(CacheError::IoError(error)) => assert_eq!(error.kind(), std::io::ErrorKind::PermissionDenied),
        _ => panic!("expected a failure of the storage"),
    }
    assert_eq!(cache.save_to_file().len(), 1);
}

#[test]
fn a_failed_save_is_a_failure_of_the_storage() {
    let cache = FileCache::new("/tmp/cache.json".to_string());
    assert!(cache.save_cache(Ok(())).is_ok());
    match cache.save_cache(Err(denied())) {
        Err(CacheError::IoError(error)) => assert_eq!(error.kind(), std::io::ErrorKind::PermissionDenied),
        _ => panic!("expected a failure of the storage"),
    }
}

#[test]
fn clearing_removes_every_song() {
    let mut cache = FileCache::new("/tmp/cache.json".to_string());
    cache.cache_songs(vec![song("/a", "1"), song("/b", "2")]).unwrap();
    cache.clear_cache().unwrap();
    assert!(cache.save_to_file().is_empty());
    assert_eq!(cache.get_cached_song("/a").unwrap(), None);
}
