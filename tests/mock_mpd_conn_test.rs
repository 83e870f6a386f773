use jukectl::daemon::MockMpd;
use jukectl::song::Song;

fn create_test_song(path: &str) -> Song {
    Song { file: path.to_string(), tags: Vec::new() }
}

#[test]
fn test_playlist_operations() {
    let mut mock = MockMpd::new();
    let songs = vec![create_test_song("test/song1.mp3"), create_test_song("test/song2.mp3")];
    mock.add_playlist("test_playlist", songs.clone());
    let result = mock.playlist("test_playlist").unwrap();
    assert_eq!(result.len(), 2);
    assert_eq!(result[0].file, "test/song1.mp3");
    let new_song = create_test_song("test/song3.mp3");
    mock.pl_push("test_playlist", new_song).unwrap();
    let updated = mock.playlist("test_playlist").unwrap();
    assert_eq!(updated.len(), 3);
    assert_eq!(updated[2].file, "test/song3.mp3");
    mock.pl_delete("test_playlist", 1).unwrap();
    let after_delete = mock.playlist("test_playlist").unwrap();
    assert_eq!(after_delete.len(), 2);
    assert_eq!(after_delete[0].file, "test/song1.mp3");
    assert_eq!(after_delete[1].file, "test/song3.mp3");
}

#[test]
fn test_queue_operations() {
    let mut mock = MockMpd::new();
    let empty_queue = mock.queue().unwrap();
    assert_eq!(empty_queue.len(), 0);
    let song1 = create_test_song("test/song1.mp3");
    let song2 = create_test_song("test/song2.mp3");
    mock.push(song1).unwrap();
    mock.push(song2).unwrap();
    let queue = mock.queue().unwrap();
    assert_eq!(queue.len(), 2);
    assert_eq!(queue[0].file, "test/song1.mp3");
    mock.delete(0).unwrap();
    let updated_queue = mock.queue().unwrap();
    assert_eq!(updated_queue.len(), 1);
    assert_eq!(updated_queue[0].file, "test/song2.mp3");
}

#[test]
fn test_connection_simulation() {
    let mut mock = MockMpd::new();
    assert!(mock.ping().is_ok());
    mock.simulate_disconnect();
    assert!(mock.ping().is_err());
    assert!(mock.queue().is_err());
    mock.simulate_reconnect();
    assert!(mock.ping().is_ok());
    assert!(mock.queue().is_ok());
}
