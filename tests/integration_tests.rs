use jukectl::daemon::MockMpd;
use jukectl::queue::SongQueue;
use jukectl::song::Song;
use jukectl::tags::TagsData;

fn song(path: &str) -> Song {
    Song { file: path.to_string(), tags: Vec::new() }
}

#[test]
fn test_real_shuffle_with_tags() {
    let mut mpd_conn = MockMpd::new();
    mpd_conn.add_playlist("jukebox", vec![song("a.mp3"), song("b.mp3"), song("c.mp3")]);
    mpd_conn.add_playlist("explicit", vec![song("b.mp3")]);
    let tags_data = TagsData { any: vec!["jukebox".to_string()], not: vec!["explicit".to_string()] };
    let allowed_songs = tags_data.get_allowed_songs(&mut mpd_conn).unwrap();
    assert_eq!(allowed_songs.len(), 2);
    let mut queue = SongQueue::new();
    queue.set_album_aware(false);
    queue.shuffle_and_add(&tags_data, &mut mpd_conn, 0).unwrap();
    assert!(queue.len() > 0, "Queue should contain songs");
}
