use jukectl::daemon::{JukeError, MockMpd};
use jukectl::pool::MpdConnectionPool;
use jukectl::queue::SongQueue;
use jukectl::routes::song::{positions_of, tag_song, untag_song, update_song_tags};
use jukectl::routes::tags::{cache_stats_response, cache_status, refresh_cache, set_album_mode, toggle_album_mode, CacheStatus};
use jukectl::routes::{all_routes, queue_to_filenames, Method};
use jukectl::scheduler::precompute;
use jukectl::song::{album_name, album_tracks, tag_value, track_number, Song};
use jukectl::tags::{allowed_from, normalize, parse_tags_data_from_argv, TagsData};
use jukectl::text::{parse_u32, split_trimmed, trim};
use std::collections::HashSet;

fn song(path: &str) -> Song {
    Song { file: path.to_string(), tags: Vec::new() }
}

fn tagged(path: &str, album: &str, track: &str) -> Song {
    Song {
        file: path.to_string(),
        tags: vec![("Album".to_string(), album.to_string()), ("Track".to_string(), track.to_string())],
    }
}

fn file_set(songs: &[Song]) -> HashSet<String> {
    songs.iter().map(|s| s.file.clone()).collect()
}

fn strings(v: &[&str]) -> Vec<String> {
    v.iter().map(|s| s.to_string()).collect()
}

fn library() -> MockMpd {
    let mut mock = MockMpd::new();
    mock.add_playlist("jukebox", vec![song("a"), song("b"), song("c")]);
    mock.add_playlist("party", vec![song("c"), song("d")]);
    mock.add_playlist("explicit", vec![song("b")]);
    mock
}

#[test]
fn identity_is_the_path() {
    let mut set = HashSet::new();
    set.insert(jukectl::song::HashableSong(tagged("x.mp3", "A", "1")));
    set.insert(jukectl::song::HashableSong(tagged("x.mp3", "B", "2")));
    assert_eq!(set.len(), 1);
}

#[test]
fn allowed_set_is_union_minus_difference() {
    let mut mock = library();
    let tags = TagsData { any: strings(&["jukebox, party"]), not: strings(&["explicit", "missing"]) };
    let got = tags.get_allowed_songs(&mut mock).unwrap();
    assert_eq!(got.len(), 3);
    assert_eq!(file_set(&got), ["a", "c", "d"].iter().map(|s| s.to_string()).collect());
}

#[test]
fn filter_is_pure() {
    let mut mock = library();
    let tags = TagsData { any: strings(&["jukebox", "party"]), not: strings(&["explicit"]) };
    let first = tags.get_allowed_songs(&mut mock).unwrap();
    let second = tags.get_allowed_songs(&mut mock).unwrap();
    assert_eq!(file_set(&first), file_set(&second));
    let reordered = TagsData { any: strings(&["party", "jukebox", "party"]), not: strings(&["explicit"]) };
    assert_eq!(file_set(&reordered.get_allowed_songs(&mut mock).unwrap()), file_set(&first));
}

#[test]
fn allowed_from_skips_missing_and_surfaces_other_errors() {
    let any = vec![Ok(vec![song("a"), song("a"), song("b")]), Err(JukeError::NotFound)];
    let not = vec![Err(JukeError::NotFound), Ok(vec![song("b")])];
    let got = allowed_from(&any, &not).unwrap();
    assert_eq!(queue_to_filenames(got), strings(&["a"]));
    let broken = vec![Ok(vec![song("a")]), Err(JukeError::Transport)];
    assert_eq!(allowed_from(&broken, &not).unwrap_err(), JukeError::Transport);
    let broken_not = vec![Err(JukeError::Exhausted)];
    assert_eq!(allowed_from(&any, &broken_not).unwrap_err(), JukeError::Exhausted);
}

#[test]
fn missing_playlist_is_not_found() {
    let mock = MockMpd::new();
    assert_eq!(mock.playlist("nothing").unwrap_err(), JukeError::NotFound);
    let mut mock = MockMpd::new();
    assert_eq!(mock.pl_delete("nothing", 0).unwrap_err(), JukeError::NotFound);
    assert_eq!(mock.delete(0).unwrap_err(), JukeError::NotFound);
    mock.simulate_disconnect();
    assert_eq!(mock.push(song("a")).unwrap_err(), JukeError::Transport);
}

#[test]
fn cache_hit_then_same() {
    let mut mock = library();
    let tags = TagsData::defaults();
    let mut queue = SongQueue::new();
    let first = queue.get_or_fetch_songs(&tags, &mut mock, 1000).unwrap();
    mock.add_playlist("jukebox", vec![song("z")]);
    let second = queue.get_or_fetch_songs(&tags, &mut mock, 1000 + 599_999).unwrap();
    assert_eq!(file_set(&first), file_set(&second));
    assert_eq!(queue.cache_stats(), (1, 1, 50));
    let third = queue.get_or_fetch_songs(&tags, &mut mock, 1000 + 600_000).unwrap();
    assert_eq!(file_set(&third), ["z"].iter().map(|s| s.to_string()).collect());
    assert_eq!(queue.cache_stats(), (1, 2, 33));
}

#[test]
fn changed_fingerprint_misses() {
    let mut mock = library();
    let mut queue = SongQueue::new();
    let tags = TagsData { any: strings(&["jukebox", "party"]), not: vec![] };
    let swapped = TagsData { any: strings(&["party", "jukebox"]), not: vec![] };
    assert_ne!(tags.fingerprint(), swapped.fingerprint());
    assert_eq!(tags.fingerprint(), tags.clone().fingerprint());
    queue.get_or_fetch_songs(&tags, &mut mock, 0).unwrap();
    assert!(queue.has_valid_cache(&tags, 10));
    assert!(!queue.has_valid_cache(&swapped, 10));
    queue.get_or_fetch_songs(&swapped, &mut mock, 10).unwrap();
    assert_eq!(queue.cache_stats().1, 2);
}

#[test]
fn refill_keeps_mode_and_holds_allowed_set() {
    let mut mock = library();
    let tags = TagsData::defaults();
    let mut queue = SongQueue::new();
    queue.set_album_aware(true);
    queue.shuffle_and_add(&tags, &mut mock, 0).unwrap();
    assert!(queue.album_aware());
    assert_eq!(queue.len(), 2);
    assert_eq!(file_set(&queue.head(Some(10))), ["a", "c"].iter().map(|s| s.to_string()).collect());
}

#[test]
fn dequeue_cardinality() {
    let mut mock = MockMpd::new();
    mock.add_to_library(tagged("b2", "B", "2"));
    mock.add_to_library(tagged("b10", "B", "10"));
    mock.add_to_library(tagged("bx", "B", "x"));
    mock.add_to_library(tagged("c1", "C", "1"));
    let mut queue = SongQueue::new();
    queue.add(tagged("seed", "B", "5"));
    queue.add(song("next"));
    queue.add(song("last"));
    queue.set_album_aware(true);
    let out = queue.dequeue(&mut mock);
    assert_eq!(queue.len(), 2);
    assert_eq!(queue_to_filenames(out), strings(&["bx", "b2", "b10"]));
    let out = queue.dequeue(&mut mock);
    assert!(out.is_empty());
    assert_eq!(queue.len(), 1);
    queue.set_album_aware(false);
    let out = queue.dequeue(&mut mock);
    assert_eq!(queue_to_filenames(out), strings(&["last"]));
    assert_eq!(queue.len(), 0);
    assert!(queue.dequeue(&mut mock).is_empty());
}

#[test]
fn album_search_failure_gives_seed() {
    let mut mock = MockMpd::new();
    mock.add_to_library(tagged("t1", "LP", "1"));
    mock.simulate_disconnect();
    let mut queue = SongQueue::new();
    queue.set_album_aware(true);
    queue.add(tagged("seed", "LP", "4"));
    assert_eq!(queue_to_filenames(queue.dequeue(&mut mock)), strings(&["seed"]));
}

#[test]
fn album_tracks_sorts_stably_and_filters() {
    let found = vec![tagged("x3", "LP", "3"), tagged("y", "EP", "1"), tagged("x0a", "LP", "zero"), tagged("x1", "LP", "+1"), tagged("x0b", "LP", "")];
    let out = album_tracks(&"LP".to_string(), found);
    assert_eq!(queue_to_filenames(out), strings(&["x0a", "x0b", "x1", "x3"]));
}

#[test]
fn tags_and_numbers() {
    let s = tagged("f", "Greatest", "12");
    assert_eq!(tag_value(&s, "Album"), Some("Greatest".to_string()));
    assert_eq!(tag_value(&s, "Artist"), None);
    assert_eq!(album_name(&song("bare")), "Unknown Album");
    assert_eq!(track_number(&s), 12);
    assert_eq!(track_number(&tagged("f", "A", "3/12")), 0);
    assert_eq!(parse_u32("+5"), Some(5));
    assert_eq!(parse_u32("4294967295"), Some(4294967295));
    assert_eq!(parse_u32("4294967296"), None);
    assert_eq!(parse_u32(""), None);
    assert_eq!(parse_u32("+"), None);
    assert_eq!(parse_u32("-1"), None);
    assert_eq!(parse_u32("007"), Some(7));
}

#[test]
fn splitting_and_trimming() {
    assert_eq!(trim("  rock \t"), "rock");
    assert_eq!(trim("\u{3000}x\u{a0}"), "x");
    assert_eq!(split_trimmed(" a , ,b,", ',', false), strings(&["a", "b"]));
    assert_eq!(split_trimmed(" a , ,b,", ',', true), strings(&["a", "", "b", ""]));
    assert_eq!(split_trimmed("", ',', true), strings(&[""]));
    assert_eq!(normalize(&strings(&["rock, jazz", "", " pop "])), strings(&["rock", "jazz", "pop"]));
    let t = TagsData { any: strings(&["a,b"]), not: strings(&["c"]) };
    let (any, not) = t.tags_to_strings();
    assert_eq!(any, strings(&["a", "b"]));
    assert_eq!(not, strings(&["c"]));
}

#[test]
fn argv_tags() {
    let t = parse_tags_data_from_argv("rock, jazz", "");
    assert_eq!(t.any, strings(&["rock", "jazz"]));
    assert_eq!(t.not, strings(&[""]));
    let t = parse_tags_data_from_argv("jukebox", "explicit ,live");
    assert_eq!(t.not, strings(&["explicit", "live"]));
}

#[test]
fn pool_accounting() {
    let mut pool: MpdConnectionPool<MockMpd> = MpdConnectionPool::new("h", 1, 8).unwrap();
    let s = pool.stats();
    assert_eq!((s.available, s.in_use, s.total, s.max), (2, 0, 2, 8));
    assert_eq!(pool.stats_simple(), (2, 8));
    let c = pool.get_connection().unwrap();
    let s = pool.stats();
    assert_eq!((s.available, s.in_use, s.total), (1, 1, 2));
    pool.return_connection(c);
    assert_eq!(pool.stats().available, 2);
    let mut dead = pool.get_connection().unwrap();
    dead.simulate_disconnect();
    pool.return_connection(dead);
    let s = pool.stats();
    assert_eq!((s.available, s.in_use, s.total), (1, 0, 1));
    assert!(MpdConnectionPool::<MockMpd>::new("h", 1, 0).is_err());
}

#[test]
fn cache_status_thresholds() {
    assert_eq!(cache_status(0, 0), CacheStatus::NeedsOptimization);
    assert_eq!(cache_status(81, 19), CacheStatus::Excellent);
    assert_eq!(cache_status(80, 20), CacheStatus::Good);
    assert_eq!(cache_status(61, 39), CacheStatus::Good);
    assert_eq!(cache_status(60, 40), CacheStatus::NeedsOptimization);
    assert_eq!(CacheStatus::Excellent.as_str(), "excellent");
    assert_eq!(CacheStatus::NeedsOptimization.as_str(), "needs_optimization");
}

#[test]
fn cache_stats_and_refresh() {
    let mut mock = library();
    let tags = TagsData::defaults();
    let mut queue = SongQueue::new();
    queue.shuffle_and_add(&tags, &mut mock, 0).unwrap();
    queue.shuffle_and_add(&tags, &mut mock, 1).unwrap();
    let r = cache_stats_response(&queue, &tags, true, 2);
    assert_eq!((r.cache_hits, r.cache_misses, r.hit_rate_percent), (1, 1, 50));
    assert!(r.cache_valid);
    assert_eq!(r.queue_length, 2);
    assert_eq!(r.status, CacheStatus::NeedsOptimization);
    let (len, ok) = refresh_cache(&mut queue, &tags, &mut mock, 3);
    assert!(ok);
    assert_eq!(len, 2);
    assert_eq!(queue.cache_stats().1, 2);
}

#[test]
fn album_mode_routes() {
    let mut mock = library();
    let tags = TagsData::defaults();
    let mut queue = SongQueue::new();
    let mut mode = false;
    let r = set_album_mode(&mut queue, &mut mode, true, &tags, &mut mock, 0);
    assert!(r.album_aware && mode && queue.album_aware());
    assert_eq!(r.message, "Album-aware mode enabled");
    let r = toggle_album_mode(&mut queue, &mut mode, &tags, &mut mock, 1);
    assert!(!r.album_aware && !mode && !queue.album_aware());
    assert_eq!(r.message, "Album-aware mode disabled");
    assert_eq!(queue.cache_stats(), (1, 1, 50));
}

#[test]
fn song_tagging_removes_every_copy() {
    let mut mock = MockMpd::new();
    mock.push(song("now")).unwrap();
    mock.add_playlist("chill", vec![song("now"), song("x"), song("now"), song("now")]);
    let list = mock.playlist("chill").unwrap();
    assert_eq!(positions_of(&list, &"now".to_string()), vec![3, 2, 0]);
    let r = update_song_tags(&mut mock, &strings(&["fav"]), &strings(&["chill", "absent"]));
    assert_eq!(r.message, "Tags updated successfully");
    assert_eq!(r.added, vec![true]);
    assert_eq!(r.removed, vec![true, false]);
    assert_eq!(queue_to_filenames(mock.playlist("chill").unwrap()), strings(&["x"]));
    assert_eq!(queue_to_filenames(mock.playlist("fav").unwrap()), strings(&["now"]));
    mock.simulate_disconnect();
    let r = update_song_tags(&mut mock, &vec![], &vec![]);
    assert_eq!(r.message, "Error: Failed to get current song");
    assert!(r.added.is_empty() && r.removed.is_empty());
}

#[test]
fn precompute_only_when_needed() {
    let mut mock = library();
    let tags = TagsData::defaults();
    let mut queue = SongQueue::new();
    assert!(precompute(&mut queue, &tags, &mut mock, 0, false));
    assert_eq!(queue.len(), 0);
    assert!(!precompute(&mut queue, &tags, &mut mock, 1, false));
    assert!(precompute(&mut queue, &tags, &mut mock, 2, true));
    assert_eq!(queue.cache_stats(), (1, 1, 50));
}

#[test]
fn route_table() {
    let all = all_routes();
    assert_eq!(all.len(), 11);
    assert_eq!((all[0].method, all[0].path), (Method::Get, "/"));
    assert_eq!((all[1].method, all[1].path), (Method::Post, "/skip"));
    assert!(all.iter().any(|e| e.method == Method::Post && e.path == "/album-mode/toggle"));
}

#[test]
fn peek_and_reshuffle() {
    let mut queue = SongQueue::new();
    assert!(queue.peek().is_none());
    for i in 0..20 {
        queue.add(song(&format!("s{}", i)));
    }
    assert_eq!(queue.peek().unwrap().file, "s0");
    let before = queue_to_filenames(queue.head(Some(20)));
    let mut moved = false;
    for _ in 0..5 {
        queue.shuffle();
        let after = queue_to_filenames(queue.head(Some(20)));
        let a: HashSet<String> = after.iter().cloned().collect();
        let b: HashSet<String> = before.iter().cloned().collect();
        assert_eq!(a, b);
        assert_eq!(after.len(), 20);
        if after != before {
            moved = true;
        }
    }
    assert!(moved);
}

#[test]
fn lend_checked_keeps_or_replaces() {
    let mut pool: MpdConnectionPool<MockMpd> = MpdConnectionPool::new("h", 1, 4).unwrap();
    let mut marked = MockMpd::new();
    marked.push(song("mark")).unwrap();
    let c = pool.lend_checked(marked, true).unwrap();
    assert_eq!(queue_to_filenames(c.queue().unwrap()), strings(&["mark"]));
    assert_eq!(pool.stats().in_use, 1);
    let mut dead = MockMpd::new();
    dead.push(song("old")).unwrap();
    let fresh = pool.lend_checked(dead, false).unwrap();
    assert!(fresh.queue().unwrap().is_empty());
    assert_eq!(pool.stats().in_use, 2);
}

#[test]
fn untag_song_removes_only_that_path() {
    let mut mock = MockMpd::new();
    mock.add_playlist("mix", vec![song("a"), song("x"), song("a"), song("y")]);
    mock.add_playlist("other", vec![song("a")]);
    assert!(untag_song(&mut mock, "mix", &"a".to_string()));
    assert_eq!(queue_to_filenames(mock.playlist("mix").unwrap()), strings(&["x", "y"]));
    assert_eq!(queue_to_filenames(mock.playlist("other").unwrap()), strings(&["a"]));
    assert!(!untag_song(&mut mock, "missing", &"a".to_string()));
}

#[test]
fn empty_filter_allows_nothing() {
    let mut mock = library();
    let tags = TagsData { any: strings(&[" , "]), not: vec![] };
    assert!(tags.get_allowed_songs(&mut mock).unwrap().is_empty());
}

#[test]
fn tag_song_appends_and_creates() {
    let mut mock = library();
    assert!(tag_song(&mut mock, "party", &song("z")));
    assert_eq!(queue_to_filenames(mock.playlist("party").unwrap()), strings(&["c", "d", "z"]));
    assert!(tag_song(&mut mock, "new", &song("z")));
    assert_eq!(queue_to_filenames(mock.playlist("new").unwrap()), strings(&["z"]));
    mock.simulate_disconnect();
    assert!(!tag_song(&mut mock, "party", &song("y")));
}
