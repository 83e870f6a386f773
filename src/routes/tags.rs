//! The filter, the album mode and the cache: `/tags`, `/album-mode`,
//! `/cache-stats` and `/cache/refresh`.
use vstd::prelude::*;

use crate::daemon::{unchanged, Daemon, JukeError};
use crate::queue::{bump, cache_valid, hit_rate_percent, refill_done, with_mode, without_cache, QueueView, SongQueue};
use crate::routes::{copy_strings, table, Endpoint, Method};
use crate::tags::{fingerprint_of, strs, TagsData};

verus! {

/// The answer to `GET /tags` and `POST /tags`.
#[derive(Clone, Debug)]
pub struct TagsResponse {
    pub any: Vec<String>,
    pub not: Vec<String>,
    pub album_aware: bool,
}

/// The body of `POST /tags`: the lists to replace, where given.
#[derive(Clone, Debug)]
pub struct TagsUpdate {
    pub any: Option<Vec<String>>,
    pub not: Option<Vec<String>>,
}

/// `GET /tags`: the filter's lists and the mode.
pub fn tags_response(tags_data: &TagsData, album_aware: bool) -> (r: TagsResponse)
    ensures
        strs(r.any@) == strs(tags_data.any@),
        strs(r.not@) == strs(tags_data.not@),
        r.album_aware == album_aware,
{
    TagsResponse {
        any: copy_strings(&tags_data.any),
        not: copy_strings(&tags_data.not),
        album_aware,
    }
}

/// The lists a filter holds after an update: each given list replaces the old one.
pub open spec fn updated_list(old: Seq<Seq<char>>, given: Option<Vec<String>>) -> Seq<Seq<char>> {
    match given {
        Some(v) => strs(v@),
        None => old,
    }
}

/// Writes the given lists into the filter; whenever a list is written the
/// cached allowed set is dropped in the same step, so that no cache is valid
/// for the new filter. Returns whether anything was written.
pub fn apply_tags_update(queue: &mut SongQueue, tags_data: &mut TagsData, update: &TagsUpdate) -> (r:
    bool)
    ensures
        r == (update.any is Some || update.not is Some),
        strs(final(tags_data).any@) == updated_list(strs(old(tags_data).any@), update.any),
        strs(final(tags_data).not@) == updated_list(strs(old(tags_data).not@), update.not),
        r ==> final(queue)@ == (QueueView { cache: None, ..old(queue)@ }),
        r ==> forall|fp: u64, now: u64| !cache_valid(final(queue)@, fp, now),
        !r ==> final(queue)@ == old(queue)@,
{
    let mut changed = false;
    match &update.any {
        Some(any) => {
            tags_data.any = copy_strings(any);
            queue.invalidate_cache();
            changed = true;
        },
        None => {},
    }
    match &update.not {
        Some(not) => {
            tags_data.not = copy_strings(not);
            queue.invalidate_cache();
            changed = true;
        },
        None => {},
    }
    changed
}

/// The queue after an update of the filter is written: without its cache
/// when a list was written, else as it was.
pub open spec fn written_queue(q: QueueView, update: TagsUpdate) -> QueueView {
    if update.any is Some || update.not is Some {
        without_cache(q)
    } else {
        q
    }
}

/// `POST /tags`: writes the given lists, drops the cache, refills the queue
/// through `client`, and answers with the filter as it now stands.
pub fn update_tags<D: Daemon>(
    queue: &mut SongQueue,
    tags_data: &mut TagsData,
    update: &TagsUpdate,
    album_aware: bool,
    client: &mut D,
    now: u64,
) -> (r: TagsResponse)
    ensures
        strs(final(tags_data).any@) == updated_list(strs(old(tags_data).any@), update.any),
        strs(final(tags_data).not@) == updated_list(strs(old(tags_data).not@), update.not),
        strs(r.any@) == strs(final(tags_data).any@),
        strs(r.not@) == strs(final(tags_data).not@),
        r.album_aware == album_aware,
        exists|res: Result<(), JukeError>|
            #[trigger] refill_done(
                written_queue(old(queue)@, *update),
                final(queue)@,
                *final(tags_data),
                old(client).stored(),
                now,
                res,
            ),
        unchanged(*old(client), *final(client)),
{
    apply_tags_update(queue, tags_data, update);
    let _ = queue.shuffle_and_add(tags_data, client, now);
    tags_response(tags_data, album_aware)
}

/// Writing both lists of the filter and then reading the filter gives back
/// exactly the lists written.
pub proof fn lemma_tags_round_trip(
    old_any: Seq<Seq<char>>,
    old_not: Seq<Seq<char>>,
    update: TagsUpdate,
    new_any: Seq<Seq<char>>,
    new_not: Seq<Seq<char>>,
    read_any: Seq<Seq<char>>,
    read_not: Seq<Seq<char>>,
)
    requires
        update.any is Some,
        update.not is Some,
        new_any == updated_list(old_any, update.any),
        new_not == updated_list(old_not, update.not),
        read_any == new_any,
        read_not == new_not,
    ensures
        read_any == strs(update.any->Some_0@),
        read_not == strs(update.not->Some_0@),
{
}

/// The answer to the album-mode routes.
#[derive(Clone, Debug)]
pub struct AlbumModeResponse {
    pub album_aware: bool,
    pub message: String,
}

/// The message of the album-mode routes.
pub open spec fn album_mode_text(enabled: bool) -> Seq<char> {
    if enabled {
        "Album-aware mode enabled"@
    } else {
        "Album-aware mode disabled"@
    }
}

fn album_mode_message(enabled: bool) -> (r: AlbumModeResponse)
    ensures
        r.album_aware == enabled,
        r.message@ == album_mode_text(enabled),
{
    let message = if enabled {
        String::from_str("Album-aware mode enabled")
    } else {
        String::from_str("Album-aware mode disabled")
    };
    AlbumModeResponse { album_aware: enabled, message }
}

/// `POST /album-mode/<enabled>`: sets the mode flag and the queue's mode,
/// then refills the queue; the cache is kept, since the mode does not change
/// the allowed set.
pub fn set_album_mode<D: Daemon>(
    queue: &mut SongQueue,
    mode: &mut bool,
    enabled: bool,
    tags_data: &TagsData,
    client: &mut D,
    now: u64,
) -> (r: AlbumModeResponse)
    ensures
        *final(mode) == enabled,
        final(queue)@.album_aware == enabled,
        r.album_aware == enabled,
        r.message@ == album_mode_text(enabled),
        exists|res: Result<(), JukeError>|
            #[trigger] refill_done(
                with_mode(old(queue)@, enabled),
                final(queue)@,
                *tags_data,
                old(client).stored(),
                now,
                res,
            ),
        unchanged(*old(client), *final(client)),
{
    *mode = enabled;
    queue.set_album_aware(enabled);
    let _ = queue.shuffle_and_add(tags_data, client, now);
    album_mode_message(enabled)
}

/// `POST /album-mode/toggle`: flips the mode; otherwise as `set_album_mode`.
pub fn toggle_album_mode<D: Daemon>(
    queue: &mut SongQueue,
    mode: &mut bool,
    tags_data: &TagsData,
    client: &mut D,
    now: u64,
) -> (r: AlbumModeResponse)
    ensures
        *final(mode) == !*old(mode),
        final(queue)@.album_aware == !*old(mode),
        r.album_aware == !*old(mode),
        r.message@ == album_mode_text(!*old(mode)),
        exists|res: Result<(), JukeError>|
            #[trigger] refill_done(
                with_mode(old(queue)@, *final(mode)),
                final(queue)@,
                *tags_data,
                old(client).stored(),
                now,
                res,
            ),
        unchanged(*old(client), *final(client)),
{
    let enabled = !*mode;
    set_album_mode(queue, mode, enabled, tags_data, client, now)
}

/// How well the cache serves lookups.
#[derive(Clone, Copy, Debug, PartialEq, Eq, Structural)]
pub enum CacheStatus {
    /// More than 80% of lookups were hits.
    Excellent,
    /// More than 60%, up to 80%.
    Good,
    /// 60% or less, or no lookups yet.
    NeedsOptimization,
}

/// The status for `hits` out of `hits + misses` lookups, by the exact rate.
pub open spec fn status_of(hits: u64, misses: u64) -> CacheStatus {
    if hits * 100 > 80 * (hits + misses) {
        CacheStatus::Excellent
    } else if hits * 100 > 60 * (hits + misses) {
        CacheStatus::Good
    } else {
        CacheStatus::NeedsOptimization
    }
}

/// The name of a status as it appears in answers.
pub open spec fn status_text(s: CacheStatus) -> Seq<char> {
    match s {
        CacheStatus::Excellent => "excellent"@,
        CacheStatus::Good => "good"@,
        CacheStatus::NeedsOptimization => "needs_optimization"@,
    }
}

impl CacheStatus {
    /// The status as it appears in answers.
    pub fn as_str(&self) -> (r: &'static str)
        ensures
            r@ == status_text(*self),
    {
        match self {
            CacheStatus::Excellent => "excellent",
            CacheStatus::Good => "good",
            CacheStatus::NeedsOptimization => "needs_optimization",
        }
    }
}

/// The status for `hits` out of `hits + misses` lookups.
pub fn cache_status(hits: u64, misses: u64) -> (r: CacheStatus)
    ensures
        r == status_of(hits, misses),
{
    let h: u128 = hits as u128 * 100;
    let total: u128 = hits as u128 + misses as u128;
    if h > 80 * total {
        CacheStatus::Excellent
    } else if h > 60 * total {
        CacheStatus::Good
    } else {
        CacheStatus::NeedsOptimization
    }
}

/// The answer to `GET /cache-stats`.
#[derive(Clone, Copy, Debug, PartialEq, Eq, Structural)]
pub struct CacheStatsResponse {
    pub cache_hits: u64,
    pub cache_misses: u64,
    pub hit_rate_percent: u64,
    pub cache_valid: bool,
    pub queue_length: usize,
    pub album_aware_enabled: bool,
    pub status: CacheStatus,
}

/// `GET /cache-stats`: the cache's counters and validity at `now`, the
/// queue's length and the mode.
pub fn cache_stats_response(
    queue: &SongQueue,
    tags_data: &TagsData,
    album_aware: bool,
    now: u64,
) -> (r: CacheStatsResponse)
    ensures
        r.cache_hits == queue@.hits,
        r.cache_misses == queue@.misses,
        r.hit_rate_percent == hit_rate_percent(queue@.hits, queue@.misses),
        r.cache_valid == cache_valid(queue@, fingerprint_of(strs(tags_data.any@), strs(tags_data.not@)), now),
        r.queue_length == queue@.inner.len(),
        r.album_aware_enabled == album_aware,
        r.status == status_of(queue@.hits, queue@.misses),
{
    let stats: (u64, u64, u64) = queue.cache_stats();
    CacheStatsResponse {
        cache_hits: stats.0,
        cache_misses: stats.1,
        hit_rate_percent: stats.2,
        cache_valid: queue.has_valid_cache(tags_data, now),
        queue_length: queue.len(),
        album_aware_enabled: album_aware,
        status: cache_status(stats.0, stats.1),
    }
}

/// `POST /cache/refresh`: drops the cache and refills the queue, so the
/// allowed set is computed afresh and cached at `now`; answers with the
/// queue's length and whether the computation succeeded.
pub fn refresh_cache<D: Daemon>(
    queue: &mut SongQueue,
    tags_data: &TagsData,
    client: &mut D,
    now: u64,
) -> (r: (usize, bool))
    ensures
        r.0 == final(queue)@.inner.len(),
        final(queue)@.misses == bump(old(queue)@.misses),
        final(queue)@.hits == old(queue)@.hits,
        exists|res: Result<(), JukeError>|
            #[trigger] refill_done(
                without_cache(old(queue)@),
                final(queue)@,
                *tags_data,
                old(client).stored(),
                now,
                res,
            ) && r.1 == res is Ok,
        r.1 ==> (final(queue)@.cache matches Some(e) && e.timestamp == now && e.tags_hash
            == fingerprint_of(strs(tags_data.any@), strs(tags_data.not@))),
        unchanged(*old(client), *final(client)),
{
    queue.invalidate_cache();
    let res = queue.shuffle_and_add(tags_data, client, now);
    let ok = res.is_ok();
    (queue.len(), ok)
}

/// The method and path of each route of the tags area.
pub open spec fn route_table() -> Seq<(Method, Seq<char>)> {
    seq![(Method::Get, "/tags"@), (Method::Post, "/tags"@), (Method::Post, "/album-mode/<enabled>"@), (Method::Post, "/album-mode/toggle"@), (Method::Get, "/cache-stats"@), (Method::Post, "/cache/refresh"@)]
}

/// The routes of the tags area.
pub fn routes() -> (r: Vec<Endpoint>)
    ensures
        table(r@) == route_table(),
{
    let mut r: Vec<Endpoint> = Vec::new();
    r.push(Endpoint { method: Method::Get, path: "/tags" });
    r.push(Endpoint { method: Method::Post, path: "/tags" });
    r.push(Endpoint { method: Method::Post, path: "/album-mode/<enabled>" });
    r.push(Endpoint { method: Method::Post, path: "/album-mode/toggle" });
    r.push(Endpoint { method: Method::Get, path: "/cache-stats" });
    r.push(Endpoint { method: Method::Post, path: "/cache/refresh" });
    assert(table(r@) =~= route_table());
    r
}

} // verus!
