//! `GET /` and `POST /skip`: reading and skipping on the daemon's queue.
use vstd::prelude::*;

use crate::daemon::{unchanged, Daemon};
use crate::routes::{file_names, queue_to_filenames, table, Endpoint, Method};
use crate::song::{views, Song, SongView};
use crate::tags::{result_view, strs, FetchView};

verus! {

/// What `GET /` answers for what reading the daemon's queue gave: its
/// paths, or nothing.
pub open spec fn index_answer(got: FetchView) -> Seq<Seq<char>> {
    match got {
        Ok(live) => file_names(live),
        Err(_) => Seq::empty(),
    }
}

/// `GET /`: the paths of the daemon's play queue; when it cannot be read, a
/// reconnection is tried and the answer is empty.
pub fn index<D: Daemon>(client: &mut D) -> (r: Vec<String>)
    ensures
        exists|got: FetchView|
            strs(r@) == #[trigger] index_answer(got) && (got matches Ok(l) ==> l == old(
                client,
            ).live()),
        unchanged(*old(client), *final(client)),
{
    let got = client.queue();
    let ghost gv = result_view(got);
    match got {
        Ok(live) => {
            let r = queue_to_filenames(live);
            assert(strs(r@) == index_answer(gv));
            r
        },
        Err(_) => {
            let _ = client.reconnect();
            let r: Vec<String> = Vec::new();
            assert(strs(r@) =~= index_answer(gv));
            r
        },
    }
}

/// The answer to `POST /skip`: the song skipped and the one now playing.
#[derive(Clone, Debug, PartialEq, Eq)]
pub struct SkipResponse {
    pub skipped: String,
    pub new: String,
}

/// The path at position `i` of `s`, or the empty path.
pub open spec fn file_at(s: Seq<SongView>, i: int) -> Seq<char> {
    if 0 <= i < s.len() {
        s[i].file
    } else {
        Seq::empty()
    }
}

/// The skip answer for a daemon queue: its first and second paths, empty
/// where the queue is shorter.
pub fn skip_response(live: &Vec<Song>) -> (r: SkipResponse)
    ensures
        r.skipped@ == file_at(views(live@), 0),
        r.new@ == file_at(views(live@), 1),
{
    let skipped = if live.len() > 0 {
        live[0].file.clone()
    } else {
        String::new()
    };
    let new = if live.len() > 1 {
        live[1].file.clone()
    } else {
        String::new()
    };
    SkipResponse { skipped, new }
}

/// `POST /skip`: reads the daemon's queue, deletes position 0, and answers
/// with the skipped and the next path read before the deletion. When the
/// queue cannot be read, both are empty and nothing is deleted; when the
/// deletion fails, the queue stays as it was.
pub fn skip<D: Daemon>(client: &mut D) -> (r: SkipResponse)
    ensures
        final(client).stored() == old(client).stored(),
        (r.skipped@ == file_at(old(client).live(), 0) && r.new@ == file_at(old(client).live(), 1)
            && (final(client).live() == old(client).live() || (old(client).live().len() > 0
            && final(client).live() == old(client).live().remove(0)))) || (r.skipped@.len() == 0
            && r.new@.len() == 0 && final(client).live() == old(client).live()),
{
    match client.queue() {
        Ok(live) => {
            let resp = skip_response(&live);
            let _ = client.delete(0);
            resp
        },
        Err(_) => SkipResponse { skipped: String::new(), new: String::new() },
    }
}

/// The method and path of each route of the index area.
pub open spec fn route_table() -> Seq<(Method, Seq<char>)> {
    seq![(Method::Get, "/"@), (Method::Post, "/skip"@)]
}

/// The routes of the index area.
pub fn routes() -> (r: Vec<Endpoint>)
    ensures
        table(r@) == route_table(),
{
    let mut r: Vec<Endpoint> = Vec::new();
    r.push(Endpoint { method: Method::Get, path: "/" });
    r.push(Endpoint { method: Method::Post, path: "/skip" });
    assert(table(r@) =~= route_table());
    r
}

} // verus!
