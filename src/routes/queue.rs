//! `GET /queue` and `POST /shuffle`: peeking at and reshuffling the replenishment queue.
use vstd::prelude::*;

use crate::daemon::{unchanged, Daemon, JukeError};
use crate::queue::{peek_count, refill_done, SongQueue};
use crate::routes::{file_names, queue_to_filenames, table, Endpoint, Method};
use crate::tags::{strs, TagsData};

verus! {

/// The answer to `GET /queue`.
#[derive(Clone, Debug)]
pub struct QueueResponse {
    pub length: usize,
    pub head: Vec<String>,
    pub tail: Vec<String>,
}

/// `GET /queue?count=K`: the queue's length and the paths of its first and
/// last `K` songs (3 when not given).
pub fn get_queue(queue: &SongQueue, count: Option<usize>) -> (r: QueueResponse)
    ensures
        r.length == queue@.inner.len(),
        strs(r.head@) == file_names(queue@.inner.take(peek_count(count, queue@.inner.len()))),
        strs(r.tail@) == file_names(
            queue@.inner.skip(queue@.inner.len() - peek_count(count, queue@.inner.len())),
        ),
{
    QueueResponse {
        length: queue.len(),
        head: queue_to_filenames(queue.head(count)),
        tail: queue_to_filenames(queue.tail(count)),
    }
}

/// The answer to `POST /shuffle`.
#[derive(Clone, Debug)]
pub struct ShuffleResponse {
    pub old: Vec<String>,
    pub new: Vec<String>,
}

/// `POST /shuffle`: refills the queue with the allowed set and answers with the paths of its
/// first three songs before and after.
pub fn shuffle_songs<D: Daemon>(
    queue: &mut SongQueue,
    tags_data: &TagsData,
    client: &mut D,
    now: u64,
) -> (r: ShuffleResponse)
    ensures
        strs(r.old@) == file_names(old(queue)@.inner.take(peek_count(None, old(queue)@.inner.len()))),
        strs(r.new@) == file_names(final(queue)@.inner.take(peek_count(None, final(queue)@.inner.len()))),
        final(queue)@.album_aware == old(queue)@.album_aware,
        exists|res: Result<(), JukeError>|
            #[trigger] refill_done(old(queue)@, final(queue)@, *tags_data, old(client).stored(), now, res),
        unchanged(*old(client), *final(client)),
{
    let old_songs = queue.head(None);
    let _ = queue.shuffle_and_add(tags_data, client, now);
    let new_songs = queue.head(None);
    ShuffleResponse { old: queue_to_filenames(old_songs), new: queue_to_filenames(new_songs) }
}

/// The method and path of each route of the queue area.
pub open spec fn route_table() -> Seq<(Method, Seq<char>)> {
    seq![(Method::Get, "/queue"@), (Method::Post, "/shuffle"@)]
}

/// The routes of the queue area.
pub fn routes() -> (r: Vec<Endpoint>)
    ensures
        table(r@) == route_table(),
{
    let mut r: Vec<Endpoint> = Vec::new();
    r.push(Endpoint { method: Method::Get, path: "/queue" });
    r.push(Endpoint { method: Method::Post, path: "/shuffle" });
    assert(table(r@) =~= route_table());
    r
}

} // verus!
