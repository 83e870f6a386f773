//! The replenishment queue: shuffled songs from the allowed set, with a cache
//! of that set keyed on the filter's fingerprint and valid for a time, and two
//! ways to dequeue (one song, or the seed song's whole album).
use vstd::prelude::*;

use rand::seq::SliceRandom;

use crate::daemon::{unchanged, Daemon, JukeError};
use crate::song::{album_name, album_of, album_tracks, copy_songs, of_album, sorted_by_track, views, Song, SongView};
use crate::tags::{allowed_in, files_of, fingerprint_of, result_view, strs, unique_files, FetchView, TagsData};

verus! {

broadcast use vstd::seq_lib::group_to_multiset_ensures;

/// How long a cached allowed set stays valid: ten minutes, in milliseconds.
pub const CACHE_TTL_MS: u64 = 600000;

/// How many songs `head` and `tail` show when no count is given.
pub const DEFAULT_PEEK: usize = 3;

/// A cached allowed set: its songs, when it was computed (milliseconds on a
/// monotonic clock) and the fingerprint of the filter it was computed for.
pub struct CacheEntry {
    songs: Vec<Song>,
    timestamp: u64,
    tags_hash: u64,
}

/// What a cache entry holds.
pub struct CacheView {
    pub songs: Seq<SongView>,
    pub timestamp: u64,
    pub tags_hash: u64,
}

/// What the queue holds.
pub struct QueueView {
    pub inner: Seq<SongView>,
    pub album_aware: bool,
    pub cache: Option<CacheView>,
    pub ttl: u64,
    pub hits: u64,
    pub misses: u64,
}

/// The time from `then` to `now`, or zero if `now` is earlier.
pub open spec fn elapsed(now: u64, then: u64) -> u64 {
    if now >= then {
        (now - then) as u64
    } else {
        0
    }
}

/// The cache holds an entry for fingerprint `fp` that is younger than the TTL at `now`.
pub open spec fn cache_valid(q: QueueView, fp: u64, now: u64) -> bool {
    match q.cache {
        Some(e) => e.tags_hash == fp && elapsed(now, e.timestamp) < q.ttl,
        None => false,
    }
}

/// One more, short of the counter's limit.
pub open spec fn bump(n: u64) -> u64 {
    if n < u64::MAX {
        (n + 1) as u64
    } else {
        n
    }
}

/// The queue after a lookup of the allowed set for fingerprint `fp` at `now`
/// that returned `r`: a hit counts a hit and changes nothing else; a miss
/// counts a miss and, when the computation succeeded, caches its result.
pub open spec fn fetch_post(
    old: QueueView,
    new: QueueView,
    fp: u64,
    now: u64,
    r: FetchView,
) -> bool {
    if cache_valid(old, fp, now) {
        &&& r == Ok::<Seq<SongView>, JukeError>(old.cache->Some_0.songs)
        &&& new == QueueView { hits: bump(old.hits), ..old }
    } else {
        &&& new.inner == old.inner
        &&& new.album_aware == old.album_aware
        &&& new.ttl == old.ttl
        &&& new.hits == old.hits
        &&& new.misses == bump(old.misses)
        &&& match r {
            Ok(s) => new.cache == Some(CacheView { songs: s, timestamp: now, tags_hash: fp }),
            Err(_) => new.cache == old.cache,
        }
    }
}

/// The queue with its cache dropped.
pub open spec fn without_cache(q: QueueView) -> QueueView {
    QueueView { cache: None, ..q }
}

/// The queue in mode `album_aware`.
pub open spec fn with_mode(q: QueueView, album_aware: bool) -> QueueView {
    QueueView { album_aware, ..q }
}

/// A refill of the queue from `old` to `new` with filter `t` at `now`, over
/// the stored playlists `pls`, that returned `r`: the allowed set is looked
/// up as `fetch_post` says (a miss computes it over `pls`); when it was had,
/// the queue now holds it in some order, else the queue keeps its songs and
/// the error is returned.
pub open spec fn refill_done(
    old: QueueView,
    new: QueueView,
    t: TagsData,
    pls: Seq<(Seq<char>, Seq<SongView>)>,
    now: u64,
    r: Result<(), JukeError>,
) -> bool {
    exists|mid: QueueView, got: FetchView|
        #![trigger fetch_post(old, mid, fingerprint_of(strs(t.any@), strs(t.not@)), now, got)]
        fetch_post(old, mid, fingerprint_of(strs(t.any@), strs(t.not@)), now, got) && (!cache_valid(
            old,
            fingerprint_of(strs(t.any@), strs(t.not@)),
            now,
        ) ==> is_allowed_set(got, pls, t)) && match got {
            Ok(songs) => r is Ok && refill_post(mid, new, songs),
            Err(e) => r == Err::<(), JukeError>(e) && new == mid,
        }
}

/// The queue's invariant: the cache's lifetime is ten minutes, and a cached
/// allowed set holds one song per path. `new` establishes it; the operations
/// that write the cache keep it, and the others leave the cache and the
/// lifetime as they were.
pub open spec fn well_formed(q: QueueView) -> bool {
    &&& q.ttl == CACHE_TTL_MS
    &&& q.cache matches Some(e) ==> unique_files(e.songs)
}

/// A reordering of songs with distinct paths has distinct paths.
pub proof fn lemma_unique_permutation(s: Seq<SongView>, t: Seq<SongView>)
    requires
        unique_files(s),
        t.to_multiset() == s.to_multiset(),
    ensures
        unique_files(t),
{
    assert forall|i: int, j: int|
        0 <= i < t.len() && 0 <= j < t.len() && t[i].file == t[j].file implies i == j by {
        if i != j {
            assert(t.to_multiset().count(t[i]) > 0);
            assert(s.contains(t[i]));
            let a = choose|a: int| 0 <= a < s.len() && s[a] == t[i];
            vstd::seq_lib::to_multiset_remove(t, i);
            vstd::seq_lib::to_multiset_remove(s, a);
            let ti = t.remove(i);
            let sa = s.remove(a);
            let k = if j < i { j } else { j - 1 };
            assert(ti[k] == t[j]);
            assert(ti.contains(t[j]));
            assert(ti.to_multiset().count(t[j]) > 0);
            assert(sa.to_multiset() == ti.to_multiset());
            assert(sa.contains(t[j]));
            let b = choose|b: int| 0 <= b < sa.len() && sa[b] == t[j];
            let b0 = if b < a { b } else { b + 1 };
            assert(s[b0] == sa[b]);
            assert(s[b0].file == s[a].file);
        }
    }
}

/// The songs a refill from `old` to `new` with filter `t` at `now` put in the
/// queue came from an allowed set with one song per path.
pub open spec fn refilled_unique(old: QueueView, new: QueueView, t: TagsData, now: u64) -> bool {
    exists|mid: QueueView, got: FetchView|
        #![trigger fetch_post(old, mid, fingerprint_of(strs(t.any@), strs(t.not@)), now, got)]
        fetch_post(old, mid, fingerprint_of(strs(t.any@), strs(t.not@)), now, got) && match got {
            Ok(songs) => unique_files(songs) && refill_post(mid, new, songs),
            Err(_) => new == mid,
        }
}

/// A computed allowed set of filter `t` over the stored playlists `pls`: its
/// paths are exactly those the filter admits, one song per path.
pub open spec fn is_allowed_set(
    got: FetchView,
    pls: Seq<(Seq<char>, Seq<SongView>)>,
    t: TagsData,
) -> bool {
    got matches Ok(s) ==> files_of(s) == allowed_in(pls, strs(t.any@), strs(t.not@)) && unique_files(s)
}

/// The queue after a refill with the allowed set `songs`: its songs are those
/// of `songs`, in some order; nothing but the songs changes.
pub open spec fn refill_post(mid: QueueView, new: QueueView, songs: Seq<SongView>) -> bool {
    &&& new.inner.to_multiset() == songs.to_multiset()
    &&& new == QueueView { inner: new.inner, ..mid }
}

/// The replenishment queue: shuffled songs waiting to go to the daemon, the
/// dequeue mode, the cached allowed set and the cache's hit and miss counts.
pub struct SongQueue {
    inner: Vec<Song>,
    album_aware: bool,
    cache: Option<CacheEntry>,
    cache_ttl: u64,
    cache_hits: u64,
    cache_misses: u64,
}

impl View for SongQueue {
    type V = QueueView;

    closed spec fn view(&self) -> QueueView {
        QueueView {
            inner: views(self.inner@),
            album_aware: self.album_aware,
            cache: match self.cache {
                Some(e) => Some(
                    CacheView { songs: views(e.songs@), timestamp: e.timestamp, tags_hash: e.tags_hash },
                ),
                None => None,
            },
            ttl: self.cache_ttl,
            hits: self.cache_hits,
            misses: self.cache_misses,
        }
    }
}

/// Relies on rand's `SliceRandom::shuffle` with the thread-local generator,
/// which only swaps elements: the songs come back in some order.
#[verifier::external_body]
fn shuffle_songs(v: &mut Vec<Song>)
    ensures
        views(final(v)@).to_multiset() == views(old(v)@).to_multiset(),
{
    v.shuffle(&mut rand::rng());
}

fn bump_counter(n: u64) -> (r: u64)
    ensures
        r == bump(n),
{
    if n < u64::MAX {
        n + 1
    } else {
        n
    }
}

impl SongQueue {
    /// An empty queue in single-song mode, with an empty cache and a TTL of
    /// ten minutes.
    pub fn new() -> (r: SongQueue)
        ensures
            r@.inner.len() == 0,
            !r@.album_aware,
            r@.cache is None,
            r@.ttl == CACHE_TTL_MS,
            r@.hits == 0,
            r@.misses == 0,
            well_formed(r@),
    {
        let r = SongQueue {
            inner: Vec::new(),
            album_aware: false,
            cache: None,
            cache_ttl: CACHE_TTL_MS,
            cache_hits: 0,
            cache_misses: 0,
        };
        assert(r@.inner =~= Seq::empty());
        r
    }

    /// Chooses how `dequeue` works; the songs and the cache stay as they are.
    pub fn set_album_aware(&mut self, album_aware: bool)
        ensures
            final(self)@ == (QueueView { album_aware, ..old(self)@ }),
    {
        self.album_aware = album_aware;
    }

    /// Whether `dequeue` hands out whole albums.
    pub fn album_aware(&self) -> (r: bool)
        ensures
            r == self@.album_aware,
    {
        self.album_aware
    }

    /// Drops the cached allowed set.
    pub fn invalidate_cache(&mut self)
        ensures
            final(self)@ == (QueueView { cache: None, ..old(self)@ }),
    {
        self.cache = None;
    }

    /// The fingerprint the cache is keyed on.
    fn hash_tags(tags_data: &TagsData) -> (r: u64)
        ensures
            r == fingerprint_of(strs(tags_data.any@), strs(tags_data.not@)),
    {
        tags_data.fingerprint()
    }

    /// Whether the cache holds the allowed set of `tags_data`, younger than
    /// the TTL at `now`.
    pub fn has_valid_cache(&self, tags_data: &TagsData, now: u64) -> (r: bool)
        ensures
            r == cache_valid(self@, fingerprint_of(strs(tags_data.any@), strs(tags_data.not@)), now),
    {
        let fp: u64 = Self::hash_tags(tags_data);
        match &self.cache {
            Some(e) => {
                let age: u64 = if now >= e.timestamp {
                    now - e.timestamp
                } else {
                    0
                };
                e.tags_hash == fp && age < self.cache_ttl
            },
            None => false,
        }
    }

    /// The allowed set of `tags_data`: from the cache when it is valid at
    /// `now` (a hit), else computed through `client` and cached (a miss).
    pub fn get_or_fetch_songs<D: Daemon>(
        &mut self,
        tags_data: &TagsData,
        client: &mut D,
        now: u64,
    ) -> (r: Result<Vec<Song>, JukeError>)
        ensures
            fetch_post(
                old(self)@,
                final(self)@,
                fingerprint_of(strs(tags_data.any@), strs(tags_data.not@)),
                now,
                result_view(r),
            ),
            unchanged(*old(client), *final(client)),
            !cache_valid(old(self)@, fingerprint_of(strs(tags_data.any@), strs(tags_data.not@)), now)
                ==> is_allowed_set(result_view(r), old(client).stored(), *tags_data),
            well_formed(old(self)@) ==> well_formed(final(self)@) && (result_view(r) matches Ok(s)
                ==> unique_files(s)),
    {
        let fp: u64 = Self::hash_tags(tags_data);
        match &self.cache {
            Some(e) => {
                let age: u64 = if now >= e.timestamp {
                    now - e.timestamp
                } else {
                    0
                };
                if e.tags_hash == fp && age < self.cache_ttl {
                    self.cache_hits = bump_counter(self.cache_hits);
                    return Ok(copy_songs(&e.songs));
                }
            },
            None => {},
        }
        self.cache_misses = bump_counter(self.cache_misses);
        let r = tags_data.get_allowed_songs(client);
        match &r {
            Ok(songs) => {
                self.cache = Some(CacheEntry { songs: copy_songs(songs), timestamp: now, tags_hash: fp });
            },
            Err(_) => {},
        }
        r
    }

    /// Refills the queue with the allowed set of `tags_data`, shuffled. When
    /// the allowed set cannot be had, the queue keeps its songs.
    pub fn shuffle_and_add<D: Daemon>(
        &mut self,
        tags_data: &TagsData,
        client: &mut D,
        now: u64,
    ) -> (r: Result<(), JukeError>)
        ensures
            refill_done(old(self)@, final(self)@, *tags_data, old(client).stored(), now, r),
            well_formed(old(self)@) ==> well_formed(final(self)@) && refilled_unique(
                old(self)@,
                final(self)@,
                *tags_data,
                now,
            ),
            well_formed(old(self)@) && r is Ok ==> unique_files(final(self)@.inner),
            unchanged(*old(client), *final(client)),
    {
        let ghost before = self@;
        let got = self.get_or_fetch_songs(tags_data, client, now);
        let ghost mid = self@;
        match got {
            Ok(songs) => {
                let mut v = songs;
                let ghost sv = views(v@);
                shuffle_songs(&mut v);
                self.inner = v;
                assert(self@ == (QueueView { inner: self@.inner, ..mid }));
                proof {
                    if well_formed(before) {
                        lemma_unique_permutation(sv, self@.inner);
                    }
                }
                assert(fetch_post(before, mid, fingerprint_of(strs(tags_data.any@), strs(tags_data.not@)), now, Ok::<Seq<SongView>, JukeError>(sv)));
                Ok(())
            },
            Err(e) => {
                assert(fetch_post(before, mid, fingerprint_of(strs(tags_data.any@), strs(tags_data.not@)), now, Err::<Seq<SongView>, JukeError>(e)));
                Err(e)
            },
        }
    }

    /// Appends a song.
    pub fn add(&mut self, song: Song)
        ensures
            final(self)@ == (QueueView { inner: old(self)@.inner.push(song@), ..old(self)@ }),
    {
        let ghost before = self@;
        self.inner.push(song);
        assert(self@.inner =~= before.inner.push(song@));
    }

    /// Takes the first song, if there is one.
    pub fn remove(&mut self) -> (r: Option<Song>)
        ensures
            old(self)@.inner.len() == 0 ==> r is None && final(self)@ == old(self)@,
            old(self)@.inner.len() > 0 ==> (r matches Some(s) && s@ == old(self)@.inner[0])
                && final(self)@ == (QueueView {
                inner: old(self)@.inner.drop_first(),
                ..old(self)@
            }),
    {
        if self.inner.len() == 0 {
            return None;
        }
        let ghost before = self@;
        let s = self.inner.remove(0);
        assert(self@.inner =~= before.inner.drop_first());
        Some(s)
    }

    /// Takes the first song, as a list of one; an empty list if there is none.
    pub fn dequeue_single(&mut self) -> (r: Vec<Song>)
        ensures
            old(self)@.inner.len() == 0 ==> r@.len() == 0 && final(self)@ == old(self)@,
            old(self)@.inner.len() > 0 ==> views(r@) == seq![old(self)@.inner[0]]
                && final(self)@ == (QueueView {
                inner: old(self)@.inner.drop_first(),
                ..old(self)@
            }),
    {
        let mut out: Vec<Song> = Vec::new();
        match self.remove() {
            Some(s) => {
                out.push(s);
                assert(views(out@) =~= seq![s@]);
            },
            None => {},
        }
        out
    }

    /// Takes the first song (the seed) and returns the songs of its album
    /// that `client` finds, sorted by track number (possibly none); the seed
    /// alone when the search fails.
    fn dequeue_as_album<D: Daemon>(&mut self, client: &mut D) -> (r: Vec<Song>)
        ensures
            unchanged(*old(client), *final(client)),
            old(self)@.inner.len() == 0 ==> r@.len() == 0 && final(self)@ == old(self)@,
            old(self)@.inner.len() > 0 ==> exists|found: Option<Seq<SongView>>|
                #[trigger] album_dequeued(old(self)@, final(self)@, views(r@), found) && (
                found matches Some(s) ==> s == old(client).album_songs(
                    album_of(old(self)@.inner[0]),
                )),
    {
        let seed = match self.remove() {
            Some(s) => s,
            None => {
                return Vec::new();
            },
        };
        let album = album_name(&seed);
        match client.search_album(album.as_str()) {
            Ok(found) => {
                let ghost fv = views(found@);
                let tracks = album_tracks(&album, found);
                assert(album_dequeued(old(self)@, self@, views(tracks@), Some(fv)));
                tracks
            },
            Err(_) => {
                let mut out: Vec<Song> = Vec::new();
                out.push(seed);
                assert(views(out@) =~= seq![seed@]);
                assert(album_dequeued(old(self)@, self@, views(out@), None));
                out
            },
        }
    }

    /// Hands out the next songs for the daemon: one song in single-song
    /// mode, the seed song's album in album mode.
    pub fn dequeue<D: Daemon>(&mut self, client: &mut D) -> (r: Vec<Song>)
        ensures
            dequeued(
                old(self)@,
                final(self)@,
                views(r@),
                old(client).album_songs(album_of(old(self)@.inner[0])),
            ),
            unchanged(*old(client), *final(client)),
    {
        if self.album_aware {
            self.dequeue_as_album(client)
        } else {
            self.dequeue_single()
        }
    }

    /// The number of songs (in album mode: of seed songs) left.
    pub fn len(&self) -> (r: usize)
        ensures
            r == self@.inner.len(),
    {
        self.inner.len()
    }

    /// Copies of the first `count` songs (3 if not given), or of all if fewer.
    pub fn head(&self, count: Option<usize>) -> (r: Vec<Song>)
        ensures
            views(r@) == self@.inner.take(peek_count(count, self@.inner.len())),
    {
        let n: usize = match count {
            Some(c) => c,
            None => DEFAULT_PEEK,
        };
        let n: usize = if n < self.inner.len() {
            n
        } else {
            self.inner.len()
        };
        let mut out: Vec<Song> = Vec::new();
        let mut i: usize = 0;
        while i < n
            invariant
                i <= n <= self.inner.len(),
                views(out@) == views(self.inner@).take(i as int),
            decreases n - i,
        {
            let s = self.inner[i].duplicate();
            let ghost o = views(out@);
            out.push(s);
            assert(views(out@) =~= o.push(s@));
            assert(views(self.inner@)[i as int] == self.inner@[i as int]@);
            assert(views(out@) =~= views(self.inner@).take(i + 1));
            i = i + 1;
        }
        out
    }

    /// Copies of the last `count` songs (3 if not given), or of all if fewer.
    pub fn tail(&self, count: Option<usize>) -> (r: Vec<Song>)
        ensures
            views(r@) == self@.inner.skip(self@.inner.len() - peek_count(count, self@.inner.len())),
    {
        let len: usize = self.inner.len();
        let n: usize = match count {
            Some(c) => c,
            None => DEFAULT_PEEK,
        };
        let start: usize = if n < len {
            len - n
        } else {
            0
        };
        let mut out: Vec<Song> = Vec::new();
        let mut i: usize = start;
        while i < len
            invariant
                start <= i <= len == self.inner.len(),
                views(out@) == views(self.inner@).subrange(start as int, i as int),
            decreases len - i,
        {
            let s = self.inner[i].duplicate();
            let ghost o = views(out@);
            out.push(s);
            assert(views(out@) =~= o.push(s@));
            assert(views(self.inner@)[i as int] == self.inner@[i as int]@);
            assert(views(out@) =~= views(self.inner@).subrange(start as int, i + 1));
            i = i + 1;
        }
        assert(views(self.inner@).subrange(start as int, len as int) =~= views(self.inner@).skip(
            start as int,
        ));
        out
    }

    /// The first song, if there is one.
    pub fn peek(&self) -> (r: Option<&Song>)
        ensures
            self@.inner.len() == 0 ==> r is None,
            self@.inner.len() > 0 ==> (r matches Some(s) && s@ == self@.inner[0]),
    {
        if self.inner.len() == 0 {
            None
        } else {
            Some(&self.inner[0])
        }
    }

    /// Puts the songs in a new random order.
    pub fn shuffle(&mut self)
        ensures
            final(self)@.inner.to_multiset() == old(self)@.inner.to_multiset(),
            final(self)@ == (QueueView { inner: final(self)@.inner, ..old(self)@ }),
    {
        shuffle_songs(&mut self.inner);
    }

    /// Removes every song.
    pub fn empty_queue(&mut self)
        ensures
            final(self)@ == (QueueView { inner: Seq::empty(), ..old(self)@ }),
    {
        self.inner = Vec::new();
        assert(self@.inner =~= Seq::<SongView>::empty());
    }

    /// Cache hits, cache misses, and the hit rate in whole percent (rounded
    /// down; 0 before any lookup).
    pub fn cache_stats(&self) -> (r: (u64, u64, u64))
        ensures
            r.0 == self@.hits,
            r.1 == self@.misses,
            r.2 == hit_rate_percent(self@.hits, self@.misses),
    {
        (self.cache_hits, self.cache_misses, percent_of(self.cache_hits, self.cache_misses))
    }
}

/// How many songs a peek of `count` shows out of `len`.
pub open spec fn peek_count(count: Option<usize>, len: nat) -> int {
    let n: int = match count {
        Some(c) => c as int,
        None => DEFAULT_PEEK as int,
    };
    if n < len {
        n
    } else {
        len as int
    }
}

/// `hits` as a whole percentage of all lookups, rounded down; 0 without lookups.
pub open spec fn hit_rate_percent(hits: u64, misses: u64) -> u64 {
    if hits + misses == 0 {
        0
    } else {
        (hits * 100 / (hits + misses)) as u64
    }
}

fn percent_of(hits: u64, misses: u64) -> (r: u64)
    ensures
        r == hit_rate_percent(hits, misses),
{
    let total: u128 = hits as u128 + misses as u128;
    if total == 0 {
        return 0;
    }
    let p: u128 = (hits as u128) * 100 / total;
    proof {
        vstd::arithmetic::div_mod::lemma_div_is_ordered(hits * 100, total * 100, total as int);
        vstd::arithmetic::div_mod::lemma_div_multiples_vanish(100, total as int);
    }
    p as u64
}

/// What an album-mode dequeue did: it took the first song, the seed. When
/// the album search succeeded and found `found`, it handed out the songs of
/// `found` that belong to the seed's album, sorted by track number (possibly
/// none); when the search failed (`found` is `None`), it handed out the seed.
pub open spec fn album_dequeued(
    old: QueueView,
    new: QueueView,
    out: Seq<SongView>,
    found: Option<Seq<SongView>>,
) -> bool {
    &&& new == QueueView { inner: old.inner.drop_first(), ..old }
    &&& match found {
        Some(s) => {
            &&& sorted_by_track(out)
            &&& out.to_multiset() == of_album(s, album_of(old.inner[0])).to_multiset()
            &&& forall|i: int|
                0 <= i < out.len() ==> album_of(#[trigger] out[i]) == album_of(old.inner[0])
        },
        None => out == seq![old.inner[0]],
    }
}

/// What a dequeue did, given what an album search for the first song's
/// album finds: nothing from an empty queue; the first song in single-song
/// mode; in album mode, as `album_dequeued` says.
pub open spec fn dequeued(old: QueueView, new: QueueView, out: Seq<SongView>, searched: Seq<SongView>) -> bool {
    if old.inner.len() == 0 {
        out.len() == 0 && new == old
    } else if !old.album_aware {
        out == seq![old.inner[0]] && new == (QueueView { inner: old.inner.drop_first(), ..old })
    } else {
        exists|found: Option<Seq<SongView>>|
            #[trigger] album_dequeued(old, new, out, found) && (found matches Some(s) ==> s == searched)
    }
}

/// Two lookups of the allowed set for the same fingerprint, with no
/// invalidation between them: if the first returned `songs` and the second
/// comes before the cached entry's TTL has run out, the second is a hit that
/// returns the same songs and counts a hit, not a miss.
pub proof fn lemma_cache_hit_then_same(
    q0: QueueView,
    q1: QueueView,
    q2: QueueView,
    fp: u64,
    t1: u64,
    t2: u64,
    songs: Seq<SongView>,
    r2: FetchView,
)
    requires
        fetch_post(q0, q1, fp, t1, Ok(songs)),
        q1.cache matches Some(e) && elapsed(t2, e.timestamp) < q1.ttl,
        fetch_post(q1, q2, fp, t2, r2),
    ensures
        r2 == Ok::<Seq<SongView>, JukeError>(songs),
        q2.hits == bump(q1.hits),
        q2.misses == q1.misses,
        q2.cache == q1.cache,
{
    assert(cache_valid(q1, fp, t2));
}

/// Setting the mode and then refilling gives a queue that holds the allowed
/// set, one entry per song, in the mode that was set.
pub proof fn lemma_refill_keeps_mode(
    q0: QueueView,
    q1: QueueView,
    x: bool,
    mid: QueueView,
    q2: QueueView,
    fp: u64,
    now: u64,
    songs: Seq<SongView>,
)
    requires
        q1 == (QueueView { album_aware: x, ..q0 }),
        fetch_post(q1, mid, fp, now, Ok(songs)),
        refill_post(mid, q2, songs),
    ensures
        q2.inner.len() == songs.len(),
        q2.album_aware == x,
{
    assert(q2.inner.to_multiset().len() == songs.to_multiset().len());
}

} // verus!
