use std::time::Duration;

use song_load_rs::song_load::{clone_songs, LoadedSong, LoadedSongs};

fn song(path: &str, hash: &str, length: Option<Duration>) -> LoadedSong {
    LoadedSong { path: path.to_string(), hash: hash.to_string(), song_length: length }
}

#[test]
fn loaded_songs_are_equal_when_all_three_fields_are() {
    let one = song("/a", "h", Some(Duration::new(1, 2)));
    assert_eq!(one, song("/a", "h", Some(Duration::new(1, 2))));
    assert_ne!(one, song("/b", "h", Some(Duration::new(1, 2))));
    assert_ne!(one, song("/a", "g", Some(Duration::new(1, 2))));
    assert_ne!(one, song("/a", "h", Some(Duration::new(1, 3))));
    assert_ne!(one, song("/a", "h", None));
}

#[test]
fn loaded_songs_are_ordered_by_path_then_hash_then_length() {
    assert!(song("/a", "z", None) < song("/b", "a", None));
    assert!(song("/a", "a", Some(Duration::new(9, 0))) < song("/a", "b", None));
    assert!(song("/a", "a", None) < song("/a", "a", Some(Duration::new(0, 0))));
    assert!(song("/a", "a", Some(Duration::new(1, 0))) < song("/a", "a", Some(Duration::new(1, 1))));
}

#[test]
fn a_copy_of_a_song_is_equal_to_it() {
    let one = song("/a", "h", Some(Duration::new(228, 500)));
    assert_eq!(one.clone(), one);
    let all = vec![song("/a", "1", None), one];
    assert_eq!(clone_songs(&all), all);
    let found = LoadedSongs { songs: all };
    assert_eq!(found.clone().songs, found.songs);
}
