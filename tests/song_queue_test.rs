use jukectl::queue::SongQueue;
use jukectl::song::Song;

fn create_test_song(path: &str) -> Song {
    Song { file: path.to_string(), tags: Vec::new() }
}

#[test]
fn test_add_and_remove() {
    let mut queue = SongQueue::new();
    assert_eq!(queue.len(), 0);
    let test_song = create_test_song("test/song1.mp3");
    queue.add(test_song.clone());
    assert_eq!(queue.len(), 1);
    let removed_song = queue.remove().unwrap();
    assert_eq!(removed_song.file, test_song.file);
    assert_eq!(queue.len(), 0);
}

#[test]
fn test_head_and_tail() {
    let mut queue = SongQueue::new();
    for i in 1..=5 {
        queue.add(create_test_song(&format!("test/song{}.mp3", i)));
    }
    let head = queue.head(None);
    assert_eq!(head.len(), 3);
    assert_eq!(head[0].file, "test/song1.mp3");
    assert_eq!(head[2].file, "test/song3.mp3");
    let head = queue.head(Some(2));
    assert_eq!(head.len(), 2);
    let tail = queue.tail(None);
    assert_eq!(tail.len(), 3);
    assert_eq!(tail[0].file, "test/song3.mp3");
    assert_eq!(tail[2].file, "test/song5.mp3");
    let tail = queue.tail(Some(2));
    assert_eq!(tail.len(), 2);
    assert_eq!(tail[0].file, "test/song4.mp3");
    assert_eq!(tail[1].file, "test/song5.mp3");
}

#[test]
fn test_empty_queue() {
    let mut queue = SongQueue::new();
    for i in 1..=3 {
        queue.add(create_test_song(&format!("test/song{}.mp3", i)));
    }
    assert_eq!(queue.len(), 3);
    queue.empty_queue();
    assert_eq!(queue.len(), 0);
}

#[test]
fn test_cache_invalidation() {
    let mut queue = SongQueue::new();
    queue.invalidate_cache();
    for i in 1..=5 {
        queue.add(create_test_song(&format!("test/song{}.mp3", i)));
    }
    assert_eq!(queue.len(), 5);
}

#[test]
fn test_cache_stats() {
    let queue = SongQueue::new();
    let (hits, misses, hit_rate) = queue.cache_stats();
    assert_eq!(hits, 0);
    assert_eq!(misses, 0);
    assert_eq!(hit_rate, 0);
}

#[test]
fn test_manual_song_operations() {
    let mut queue = SongQueue::new();
    for i in 1..=10 {
        queue.add(create_test_song(&format!("test/song{}.mp3", i)));
    }
    assert_eq!(queue.len(), 10);
    let all_songs = queue.head(Some(queue.len()));
    assert_eq!(all_songs.len(), 10);
    for i in 0..10 {
        assert_eq!(all_songs[i].file, format!("test/song{}.mp3", i + 1));
    }
}

#[test]
fn test_dequeue_modes() {
    let mut queue = SongQueue::new();
    queue.add(create_test_song("song1.mp3"));
    queue.add(create_test_song("song2.mp3"));
    queue.set_album_aware(false);
    assert_eq!(queue.len(), 2);
    let songs = queue.dequeue_single();
    assert_eq!(songs.len(), 1);
    assert_eq!(queue.len(), 1);
}

#[test]
fn test_album_aware_flag() {
    let mut queue = SongQueue::new();
    queue.set_album_aware(true);
    assert!(queue.album_aware());
    queue.set_album_aware(false);
    assert!(!queue.album_aware());
}
