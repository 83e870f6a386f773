//! One tick of the scheduler: keep the replenishment queue filled and the
//! daemon's play queue at least two songs deep.
use vstd::prelude::*;

use crate::daemon::{unchanged, Daemon, JukeError};
use crate::queue::{cache_valid, dequeued, fetch_post, refill_done, QueueView, SongQueue};
use crate::song::{album_of, views, Song, SongView};
use crate::tags::{fingerprint_of, result_view, strs, FetchView, TagsData};

verus! {

/// The daemon's queue is topped up while it holds fewer songs than this:
/// one playing and one waiting.
pub const TARGET_DEPTH: usize = 2;

/// Below this many songs in the replenishment queue, a background
/// recomputation of the allowed set is asked for.
pub const LOW_WATER: usize = 50;

/// Cache statistics are logged every this many ticks.
pub const STATS_EVERY: u64 = 100;

/// How long the scheduler sleeps between ticks, in milliseconds.
pub const TICK_MS: u64 = 3000;

/// What a tick saw and did.
#[derive(Clone, Copy, Debug, PartialEq, Eq, Structural)]
pub struct TickReport {
    /// The replenishment queue was empty and was refilled.
    pub refilled: bool,
    /// The length of the daemon's queue, when it could be read.
    pub daemon_len: Option<usize>,
    /// Songs in the replenishment queue before anything was taken from it.
    pub seeds_before: usize,
    /// Songs taken from the replenishment queue and handed to the daemon.
    pub handed: usize,
    /// Of those, how many the daemon accepted.
    pub pushed: usize,
    /// The replenishment queue is below the low-water mark.
    pub precompute_requested: bool,
    /// This tick should log the cache statistics.
    pub log_stats: bool,
}

/// Hands `songs` to the daemon in order and starts playback if any was
/// accepted; returns how many were accepted. The daemon's queue grows by
/// that many, and by exactly `songs` when all were accepted.
fn push_all<D: Daemon>(client: &mut D, songs: &Vec<Song>) -> (r: usize)
    ensures
        r <= songs@.len(),
        final(client).live().len() == old(client).live().len() + r,
        r == songs@.len() ==> final(client).live() == old(client).live() + views(songs@),
        final(client).stored() == old(client).stored(),
{
    let mut pushed: usize = 0;
    let mut i: usize = 0;
    while i < songs.len()
        invariant
            pushed <= i <= songs.len(),
            client.live().len() == old(client).live().len() + pushed,
            pushed == i ==> client.live() == old(client).live() + views(songs@).take(i as int),
            client.stored() == old(client).stored(),
        decreases songs.len() - i,
    {
        let ghost before = client.live();
        match client.push(&songs[i]) {
            Ok(()) => {
                proof {
                    if pushed == i {
                        assert(views(songs@).take(i + 1) =~= views(songs@).take(i as int).push(
                            songs@[i as int]@,
                        ));
                        assert(client.live() =~= old(client).live() + views(songs@).take(i + 1));
                    }
                }
                pushed = pushed + 1;
            },
            Err(_) => {},
        }
        i = i + 1;
    }
    assert(views(songs@).take(songs@.len() as int) =~= views(songs@));
    if pushed > 0 {
        let _ = client.play();
    }
    pushed
}

/// One tick, under one snapshot of the filter: refill the replenishment
/// queue if it is empty (as `refill_done` says); if the daemon's
/// queue can be read and holds fewer than two songs, dequeue (one song, or
/// an album in album mode) and push what came out, in order; then report
/// whether a background recomputation is wanted and whether this tick logs
/// statistics.
pub fn scheduler_tick<D: Daemon>(
    queue: &mut SongQueue,
    tags_data: &TagsData,
    client: &mut D,
    now: u64,
    cycle: u64,
) -> (r: TickReport)
    ensures
        r.refilled == (old(queue)@.inner.len() == 0),
        !r.refilled ==> r.seeds_before == old(queue)@.inner.len(),
        r.daemon_len matches Some(n) ==> n == old(client).live().len(),
        r.pushed <= r.handed,
        final(client).live().len() == old(client).live().len() + r.pushed,
        final(client).stored() == old(client).stored(),
        exists|mid: QueueView, out: Seq<SongView>, res: Result<(), JukeError>|
            #![trigger dequeued(mid, final(queue)@, out, old(client).album_songs(album_of(mid.inner[0]))), refill_done(old(queue)@, mid, *tags_data, old(client).stored(), now, res)]
            mid.inner.len() == r.seeds_before && mid.album_aware == old(queue)@.album_aware && (
            !r.refilled ==> mid == old(queue)@) && (r.refilled ==> refill_done(
                old(queue)@,
                mid,
                *tags_data,
                old(client).stored(),
                now,
                res,
            )) && out.len() == r.handed && match r.daemon_len {
                Some(n) if n < TARGET_DEPTH => dequeued(
                    mid,
                    final(queue)@,
                    out,
                    old(client).album_songs(album_of(mid.inner[0])),
                ) && (r.pushed == r.handed ==> final(client).live() == old(client).live() + out),
                _ => r.handed == 0 && final(queue)@ == mid,
            },
        r.precompute_requested == (final(queue)@.inner.len() < LOW_WATER),
        r.log_stats == (cycle % STATS_EVERY == 0),
        final(queue)@.album_aware == old(queue)@.album_aware,
{
    let refilled: bool = queue.len() == 0;
    let ghost mut res: Result<(), JukeError> = Ok(());
    if refilled {
        let got = queue.shuffle_and_add(tags_data, client, now);
        proof {
            res = got;
        }
    }
    let ghost mid = queue@;
    let seeds_before: usize = queue.len();
    let mut daemon_len: Option<usize> = None;
    let mut handed: usize = 0;
    let mut pushed: usize = 0;
    let ghost mut out: Seq<SongView> = Seq::empty();
    match client.queue() {
        Ok(live) => {
            assert(views(live@).len() == live@.len());
            daemon_len = Some(live.len());
            if live.len() < TARGET_DEPTH {
                assert(client.album_songs(album_of(mid.inner[0])) == old(client).album_songs(
                    album_of(mid.inner[0]),
                ));
                let songs = queue.dequeue(client);
                proof {
                    out = views(songs@);
                }
                assert(views(songs@).len() == songs@.len());
                handed = songs.len();
                pushed = push_all(client, &songs);
            }
        },
        Err(_) => {},
    }
    assert(mid.inner.len() == seeds_before);
    assert(mid.album_aware == old(queue)@.album_aware);
    assert(out.len() == handed);
    assert(!refilled ==> mid == old(queue)@);
    let ghost t = dequeued(mid, queue@, out, old(client).album_songs(album_of(mid.inner[0])));
    let ghost t2 = refill_done(old(queue)@, mid, *tags_data, old(client).stored(), now, res);
    TickReport {
        refilled,
        daemon_len,
        seeds_before,
        handed,
        pushed,
        precompute_requested: queue.len() < LOW_WATER,
        log_stats: cycle % STATS_EVERY == 0,
    }
}

/// How often the background task wakes, in milliseconds.
pub const PRECOMPUTE_MS: u64 = 30000;

/// The background task's step: when a recomputation was asked for, or the
/// cache holds no valid allowed set at `now`, look the allowed set up, so
/// that the next refill finds it cached: a successful miss caches the set at
/// `now`, as `fetch_post` says. The queue's songs are left alone. Returns
/// whether a lookup was made.
pub fn precompute<D: Daemon>(
    queue: &mut SongQueue,
    tags_data: &TagsData,
    client: &mut D,
    now: u64,
    requested: bool,
) -> (r: bool)
    ensures
        r == (requested || !cache_valid(
            old(queue)@,
            fingerprint_of(strs(tags_data.any@), strs(tags_data.not@)),
            now,
        )),
        final(queue)@.inner == old(queue)@.inner,
        final(queue)@.album_aware == old(queue)@.album_aware,
        !r ==> final(queue)@ == old(queue)@,
        r ==> exists|got: FetchView|
            #[trigger] fetch_post(
                old(queue)@,
                final(queue)@,
                fingerprint_of(strs(tags_data.any@), strs(tags_data.not@)),
                now,
                got,
            ),
        unchanged(*old(client), *final(client)),
{
    if requested || !queue.has_valid_cache(tags_data, now) {
        let got = queue.get_or_fetch_songs(tags_data, client, now);
        assert(fetch_post(
            old(queue)@,
            queue@,
            fingerprint_of(strs(tags_data.any@), strs(tags_data.not@)),
            now,
            result_view(got),
        ));
        true
    } else {
        false
    }
}

} // verus!
