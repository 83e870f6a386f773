//! What each HTTP route decides and answers, apart from the transport: the
//! handlers read and change the shared queue, filter and mode, and talk to
//! the daemon through a lent connection.
use vstd::prelude::*;

use crate::song::{views, Song, SongView};
use crate::tags::strs;

pub mod index;
pub mod queue;
pub mod song;
pub mod tags;

verus! {

/// An HTTP method the surface answers.
#[derive(Clone, Copy, Debug, PartialEq, Eq, Structural)]
pub enum Method {
    Get,
    Post,
}

/// A route: its method and its path, with `<name>` for a path parameter.
#[derive(Clone, Copy, Debug)]
pub struct Endpoint {
    pub method: Method,
    pub path: &'static str,
}

/// The routes of a table, as method and path.
pub open spec fn table(r: Seq<Endpoint>) -> Seq<(Method, Seq<char>)> {
    r.map_values(|e: Endpoint| (e.method, e.path@))
}

/// Appends the routes of `more` to `all`.
fn append_routes(all: &mut Vec<Endpoint>, more: Vec<Endpoint>)
    ensures
        table(final(all)@) == table(old(all)@) + table(more@),
{
    let ghost start = old(all)@;
    let mut i: usize = 0;
    while i < more.len()
        invariant
            i <= more.len(),
            table(all@) == table(start) + table(more@).take(i as int),
        decreases more.len() - i,
    {
        let ghost o = table(all@);
        all.push(more[i]);
        assert(table(all@) =~= o.push((more@[i as int].method, more@[i as int].path@)));
        assert(table(all@) =~= table(start) + table(more@).take(i + 1));
        i = i + 1;
    }
    assert(table(more@).take(i as int) =~= table(more@));
}

/// Every route of the surface: those of the index, queue, song and tags areas.
pub fn all_routes() -> (r: Vec<Endpoint>)
    ensures
        table(r@) == index::route_table() + queue::route_table() + song::route_table()
            + tags::route_table(),
{
    let mut all: Vec<Endpoint> = Vec::new();
    assert(table(all@) =~= Seq::empty());
    append_routes(&mut all, index::routes());
    append_routes(&mut all, queue::routes());
    append_routes(&mut all, song::routes());
    append_routes(&mut all, tags::routes());
    assert(Seq::<(Method, Seq<char>)>::empty() + index::route_table() =~= index::route_table());
    all
}

/// The paths of a run of songs.
pub open spec fn file_names(s: Seq<SongView>) -> Seq<Seq<char>> {
    s.map_values(|v: SongView| v.file)
}

/// The file path of each song, in order.
pub fn queue_to_filenames(song_array: Vec<Song>) -> (r: Vec<String>)
    ensures
        strs(r@) == file_names(views(song_array@)),
{
    let mut out: Vec<String> = Vec::new();
    let mut i: usize = 0;
    while i < song_array.len()
        invariant
            i <= song_array.len(),
            strs(out@) == file_names(views(song_array@)).take(i as int),
        decreases song_array.len() - i,
    {
        let f = song_array[i].file.clone();
        let ghost o = strs(out@);
        out.push(f);
        assert(strs(out@) =~= o.push(f@));
        assert(file_names(views(song_array@))[i as int] == song_array@[i as int].file@);
        assert(strs(out@) =~= file_names(views(song_array@)).take(i + 1));
        i = i + 1;
    }
    assert(file_names(views(song_array@)).take(i as int) =~= file_names(views(song_array@)));
    out
}

/// Copies of a list of strings.
pub(crate) fn copy_strings(v: &Vec<String>) -> (r: Vec<String>)
    ensures
        strs(r@) == strs(v@),
{
    let mut out: Vec<String> = Vec::new();
    let mut i: usize = 0;
    while i < v.len()
        invariant
            i <= v.len(),
            strs(out@) == strs(v@).take(i as int),
        decreases v.len() - i,
    {
        let s = v[i].clone();
        let ghost o = strs(out@);
        out.push(s);
        assert(strs(out@) =~= o.push(s@));
        assert(strs(out@) =~= strs(v@).take(i + 1));
        i = i + 1;
    }
    assert(strs(v@).take(i as int) =~= strs(v@));
    out
}

} // verus!
