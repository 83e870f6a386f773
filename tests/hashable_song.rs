use jukectl::song::{HashableSong, Song};
use std::collections::hash_map::DefaultHasher;
use std::collections::HashSet;
use std::hash::{Hash, Hasher};

fn make_song(file: &str) -> Song {
    Song { file: file.to_string(), tags: Vec::new() }
}

#[test]
fn test_equality_same_file() {
    let song1 = HashableSong(make_song("music/foo.mp3"));
    let song2 = HashableSong(make_song("music/foo.mp3"));
    assert_eq!(song1, song2);
}

#[test]
fn test_equality_different_file() {
    let song1 = HashableSong(make_song("music/foo.mp3"));
    let song2 = HashableSong(make_song("music/bar.mp3"));
    assert_ne!(song1, song2);
}

#[test]
fn test_hashing_consistency() {
    let song1 = HashableSong(make_song("music/foo.mp3"));
    let song2 = HashableSong(make_song("music/foo.mp3"));
    let mut hasher1 = DefaultHasher::new();
    let mut hasher2 = DefaultHasher::new();
    song1.hash(&mut hasher1);
    song2.hash(&mut hasher2);
    assert_eq!(hasher1.finish(), hasher2.finish());
}

#[test]
fn test_hashing_differentiation() {
    let song1 = HashableSong(make_song("music/foo.mp3"));
    let song2 = HashableSong(make_song("music/bar.mp3"));
    let mut hasher1 = DefaultHasher::new();
    let mut hasher2 = DefaultHasher::new();
    song1.hash(&mut hasher1);
    song2.hash(&mut hasher2);
    assert_ne!(hasher1.finish(), hasher2.finish());
}

#[test]
fn test_set_uniqueness() {
    let song1 = HashableSong(make_song("music/foo.mp3"));
    let song2 = HashableSong(make_song("music/foo.mp3"));
    let song3 = HashableSong(make_song("music/bar.mp3"));
    let mut set = HashSet::new();
    set.insert(song1);
    set.insert(song2);
    set.insert(song3);
    assert_eq!(set.len(), 2);
}

#[test]
fn test_from_impl() {
    let original = make_song("music/foo.mp3");
    let wrapped = HashableSong(original.clone());
    let unwrapped: Song = wrapped.into();
    assert_eq!(original.file, unwrapped.file);
}

#[test]
fn songs_with_same_file_path_should_be_equal_in_hashset() {
    let song1 = make_song("music/foo.mp3");
    let mut song2 = song1.clone();
    song2.tags.push(("Title".to_string(), "Different Title".to_string()));
    let mut set = HashSet::new();
    set.insert(HashableSong(song1));
    let inserted = set.insert(HashableSong(song2));
    assert!(!inserted, "Duplicate song should not be inserted based on file");
    assert_eq!(set.len(), 1, "Set should contain only one unique song by file path");
}

#[test]
fn songs_with_different_file_paths_should_be_unique() {
    let song1 = make_song("music/foo.mp3");
    let song2 = make_song("music/bar.mp3");
    let mut set = HashSet::new();
    set.insert(HashableSong(song1));
    set.insert(HashableSong(song2));
    assert_eq!(set.len(), 2, "Set should contain both songs with different file paths");
}
