use jukectl::daemon::{JukeError, MockMpd};
use jukectl::pool::MpdConnectionPool;
use jukectl::queue::SongQueue;
use jukectl::routes::index::{index, skip};
use jukectl::routes::queue::get_queue;
use jukectl::routes::tags::{apply_tags_update, tags_response, update_tags, TagsUpdate};
use jukectl::scheduler::scheduler_tick;
use jukectl::song::Song;
use jukectl::tags::TagsData;
use std::collections::HashSet;

fn song(path: &str) -> Song {
    Song { file: path.to_string(), tags: Vec::new() }
}

fn album_song(path: &str, album: &str, track: &str) -> Song {
    Song {
        file: path.to_string(),
        tags: vec![("Album".to_string(), album.to_string()), ("Track".to_string(), track.to_string())],
    }
}

fn files(songs: &[Song]) -> Vec<String> {
    songs.iter().map(|s| s.file.clone()).collect()
}

fn boot() -> (MockMpd, SongQueue, TagsData) {
    let mut mock = MockMpd::new();
    mock.add_playlist("jukebox", vec![song("a"), song("b"), song("c"), song("d"), song("e")]);
    mock.add_playlist("explicit", vec![song("b")]);
    let tags = TagsData::defaults();
    let mut queue = SongQueue::new();
    queue.shuffle_and_add(&tags, &mut mock, 0).unwrap();
    (mock, queue, tags)
}

#[test]
fn basic_shuffle_scenario() {
    let (_mock, queue, _tags) = boot();
    assert_eq!(queue.len(), 4);
    let head: HashSet<String> = files(&queue.head(Some(4))).into_iter().collect();
    let want: HashSet<String> = ["a", "c", "d", "e"].iter().map(|s| s.to_string()).collect();
    assert_eq!(head, want);
}

#[test]
fn skip_endpoint_scenario() {
    let mut mock = MockMpd::new();
    for f in ["X", "Y", "Z"] {
        mock.push(song(f)).unwrap();
    }
    let r = skip(&mut mock);
    assert_eq!(r.skipped, "X");
    assert_eq!(r.new, "Y");
    assert_eq!(files(&mock.queue().unwrap()), vec!["Y".to_string(), "Z".to_string()]);
}

#[test]
fn skip_on_short_and_broken_queue() {
    let mut mock = MockMpd::new();
    let r = skip(&mut mock);
    assert_eq!((r.skipped.as_str(), r.new.as_str()), ("", ""));
    mock.push(song("only")).unwrap();
    mock.simulate_disconnect();
    let r = skip(&mut mock);
    assert_eq!((r.skipped.as_str(), r.new.as_str()), ("", ""));
    mock.simulate_reconnect();
    assert_eq!(mock.queue().unwrap().len(), 1);
}

#[test]
fn tag_update_invalidates_scenario() {
    let (mut mock, mut queue, mut tags) = boot();
    mock.add_playlist("rock", vec![song("r1"), song("r2")]);
    let hits_before = queue.cache_stats().0;
    let update = TagsUpdate { any: Some(vec!["rock".to_string()]), not: Some(vec![]) };
    update_tags(&mut queue, &mut tags, &update, false, &mut mock, 10);
    let q = get_queue(&queue, None);
    assert_eq!(q.length, 2);
    assert_eq!(queue.cache_stats().0, hits_before);
    let got: HashSet<String> = q.head.into_iter().collect();
    let want: HashSet<String> = ["r1", "r2"].iter().map(|s| s.to_string()).collect();
    assert_eq!(got, want);
}

#[test]
fn album_mode_dequeue_scenario() {
    let mut mock = MockMpd::new();
    mock.add_to_library(album_song("t2", "LP", "2"));
    mock.add_to_library(album_song("t1", "LP", "1"));
    mock.add_to_library(album_song("t3", "LP", "3"));
    mock.add_to_library(album_song("other", "EP", "1"));
    let mut queue = SongQueue::new();
    queue.add(album_song("s", "LP", "7"));
    queue.set_album_aware(true);
    let tags = TagsData::defaults();
    let report = scheduler_tick(&mut queue, &tags, &mut mock, 0, 1);
    assert_eq!(report.daemon_len, Some(0));
    assert_eq!(report.handed, 3);
    assert_eq!(report.pushed, 3);
    assert_eq!(files(&mock.queue().unwrap()), vec!["t1".to_string(), "t2".to_string(), "t3".to_string()]);
    assert_eq!(queue.len(), 0);
}

#[test]
fn pool_cap_scenario() {
    let mut pool: MpdConnectionPool<MockMpd> = MpdConnectionPool::new("localhost", 6600, 2).unwrap();
    let mut completed = 0;
    let mut lent = Vec::new();
    for _ in 0..5 {
        match pool.get_connection() {
            Ok(c) => lent.push(c),
            Err(e) => {
                assert_eq!(e, JukeError::Exhausted);
                let s = pool.stats();
                assert_eq!(s.in_use, 2);
                let c = lent.pop().unwrap();
                pool.return_connection(c);
                completed += 1;
                lent.push(pool.get_connection().unwrap());
            }
        }
        let s = pool.stats();
        assert!(s.in_use <= 2);
        assert_eq!(s.available + s.in_use, s.total);
        assert!(s.total <= s.max);
    }
    while let Some(c) = lent.pop() {
        pool.return_connection(c);
        completed += 1;
    }
    assert_eq!(completed, 5);
    assert_eq!(pool.stats().in_use, 0);
}

#[test]
fn daemon_hiccup_scenario() {
    let (mut mock, mut queue, tags) = boot();
    mock.push(song("now")).unwrap();
    mock.simulate_disconnect();
    assert!(index(&mut mock).is_empty());
    let report = scheduler_tick(&mut queue, &tags, &mut mock, 5, 2);
    assert_eq!(report.daemon_len, None);
    assert_eq!(report.handed, 0);
    mock.simulate_reconnect();
    assert_eq!(index(&mut mock), vec!["now".to_string()]);
    let report = scheduler_tick(&mut queue, &tags, &mut mock, 6, 3);
    assert_eq!(report.daemon_len, Some(1));
    assert_eq!(report.handed, 1);
    assert_eq!(mock.queue().unwrap().len(), 2);
}

#[test]
fn scheduler_fills_short_daemon_queue() {
    let (mut mock, mut queue, tags) = boot();
    let report = scheduler_tick(&mut queue, &tags, &mut mock, 1, 100);
    assert!(!report.refilled);
    assert_eq!(report.seeds_before, 4);
    assert_eq!(report.pushed, 1);
    assert_eq!(queue.len(), 3);
    assert!(report.precompute_requested);
    assert!(report.log_stats);
    assert!(mock.queue().unwrap().len() >= 1);
    scheduler_tick(&mut queue, &tags, &mut mock, 2, 101);
    scheduler_tick(&mut queue, &tags, &mut mock, 3, 102);
    assert_eq!(mock.queue().unwrap().len(), 2);
    assert_eq!(queue.len(), 2);
}

#[test]
fn scheduler_refills_empty_queue() {
    let (mut mock, _queue, tags) = boot();
    let mut queue = SongQueue::new();
    let report = scheduler_tick(&mut queue, &tags, &mut mock, 0, 7);
    assert!(report.refilled);
    assert_eq!(report.seeds_before, 4);
    assert_eq!(queue.len(), 3);
    assert!(!report.log_stats);
}

#[test]
fn tags_round_trip() {
    let (mut mock, mut queue, mut tags) = boot();
    let update = TagsUpdate {
        any: Some(vec!["jukebox".to_string(), "rock, jazz".to_string()]),
        not: Some(vec!["explicit".to_string()]),
    };
    let posted = update_tags(&mut queue, &mut tags, &update, true, &mut mock, 3);
    let got = tags_response(&tags, true);
    assert_eq!(got.any, vec!["jukebox".to_string(), "rock, jazz".to_string()]);
    assert_eq!(got.not, vec!["explicit".to_string()]);
    assert_eq!(posted.any, got.any);
    assert!(got.album_aware);
}

#[test]
fn tag_write_leaves_no_valid_cache() {
    let (_mock, mut queue, mut tags) = boot();
    assert!(queue.has_valid_cache(&tags, 1));
    let update = TagsUpdate { any: None, not: Some(vec![]) };
    assert!(apply_tags_update(&mut queue, &mut tags, &update));
    assert!(!queue.has_valid_cache(&tags, 1));
    let nothing = TagsUpdate { any: None, not: None };
    assert!(!apply_tags_update(&mut queue, &mut tags, &nothing));
}
