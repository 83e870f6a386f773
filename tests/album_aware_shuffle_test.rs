use jukectl::daemon::MockMpd;
use jukectl::queue::SongQueue;
use jukectl::song::Song;

fn create_test_song(path: &str, album: &str, track: Option<u32>) -> Song {
    let mut tags = vec![("Album".to_string(), album.to_string())];
    if let Some(track_num) = track {
        tags.push(("Track".to_string(), track_num.to_string()));
    }
    Song { file: path.to_string(), tags }
}

fn albums() -> (Vec<Song>, Vec<Song>) {
    (
        vec![
            create_test_song("album1/track1.mp3", "Classic Rock", Some(1)),
            create_test_song("album1/track2.mp3", "Classic Rock", Some(2)),
            create_test_song("album1/track3.mp3", "Classic Rock", Some(3)),
        ],
        vec![
            create_test_song("album2/track1.mp3", "Jazz Vibes", Some(1)),
            create_test_song("album2/track2.mp3", "Jazz Vibes", Some(2)),
        ],
    )
}

#[test]
fn test_album_aware_shuffle_phase() {
    let mut mock_mpd = MockMpd::new();
    let (album1_songs, album2_songs) = albums();
    mock_mpd.add_playlist("rock", album1_songs.clone());
    mock_mpd.add_playlist("jazz", album2_songs.clone());
    let mut queue = SongQueue::new();
    queue.set_album_aware(true);
    for song in album1_songs.iter().chain(album2_songs.iter()) {
        queue.add(song.clone());
    }
    assert_eq!(queue.len(), 5, "Queue should contain all 5 songs");
}

#[test]
fn test_album_aware_dequeue_phase() {
    let mut mock_mpd = MockMpd::new();
    let (album1_songs, album2_songs) = albums();
    mock_mpd.add_playlist("rock", album1_songs.clone());
    mock_mpd.add_playlist("jazz", album2_songs.clone());
    let mut queue = SongQueue::new();
    queue.set_album_aware(true);
    queue.add(album1_songs[0].clone());
    queue.add(album2_songs[1].clone());
    queue.add(album1_songs[2].clone());
    queue.add(album2_songs[0].clone());
    assert_eq!(queue.len(), 4, "Queue should have 4 songs initially");
}

#[test]
fn test_comparison_with_regular_shuffle() {
    let mut mock_mpd = MockMpd::new();
    let (album1_songs, album2_songs) = albums();
    mock_mpd.add_playlist("rock", album1_songs.clone());
    mock_mpd.add_playlist("jazz", album2_songs.clone());
    let mut regular_queue = SongQueue::new();
    regular_queue.set_album_aware(false);
    for song in album1_songs.iter().chain(album2_songs.iter()) {
        regular_queue.add(song.clone());
    }
    let mut album_aware_queue = SongQueue::new();
    album_aware_queue.set_album_aware(true);
    for song in album1_songs.iter().chain(album2_songs.iter()) {
        album_aware_queue.add(song.clone());
    }
    assert_eq!(regular_queue.len(), 5);
    assert_eq!(album_aware_queue.len(), 5);
}

#[test]
fn test_regular_mode_dequeue() {
    let mut queue = SongQueue::new();
    queue.set_album_aware(false);
    queue.add(create_test_song("song1.mp3", "Album A", Some(1)));
    queue.add(create_test_song("song2.mp3", "Album B", Some(1)));
    queue.add(create_test_song("song3.mp3", "Album A", Some(2)));
    assert_eq!(queue.len(), 3);
    let song1 = queue.remove();
    assert!(song1.is_some());
    assert_eq!(queue.len(), 2, "Should have 2 songs left");
    let song2 = queue.remove();
    assert!(song2.is_some());
    assert_eq!(queue.len(), 1, "Should have 1 song left");
}

#[test]
fn test_album_mode_flag() {
    let mut queue = SongQueue::new();
    queue.set_album_aware(false);
    queue.set_album_aware(true);
    queue.set_album_aware(false);
    assert!(!queue.album_aware());
}

#[test]
fn test_queue_basic_operations() {
    let mut queue = SongQueue::new();
    queue.set_album_aware(true);
    assert_eq!(queue.len(), 0);
    assert!(queue.remove().is_none());
    queue.add(create_test_song("test1.mp3", "Album", Some(1)));
    queue.add(create_test_song("test2.mp3", "Album", Some(2)));
    assert_eq!(queue.len(), 2);
    let head = queue.head(Some(1));
    assert_eq!(head.len(), 1);
    assert_eq!(head[0].file, "test1.mp3");
    let tail = queue.tail(Some(1));
    assert_eq!(tail.len(), 1);
    assert_eq!(tail[0].file, "test2.mp3");
    queue.empty_queue();
    assert_eq!(queue.len(), 0);
}
