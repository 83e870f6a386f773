//! `POST /song/tags`: tagging and untagging the song playing now.
use vstd::prelude::*;

use crate::daemon::{lookup, or_empty, others_kept, unchanged, Daemon};
use crate::routes::{table, Endpoint, Method};
use crate::song::{views, Song, SongView};
use crate::tags::strs;
use crate::text::same_text;

verus! {

/// The positions in `playlist` of the songs with path `file`, from the last
/// to the first, so that deleting them in this order leaves the positions
/// still to delete in place.
pub fn positions_of(playlist: &Vec<Song>, file: &String) -> (r: Vec<u32>)
    requires
        playlist@.len() <= u32::MAX,
    ensures
        forall|k: int| 0 <= k < r@.len() ==> (r@[k] as int) < playlist@.len() && playlist@[r@[k] as int].file@ == file@,
        forall|k: int, l: int| 0 <= k < l < r@.len() ==> r@[k] > r@[l],
        forall|p: int| 0 <= p < playlist@.len() && playlist@[p].file@ == file@ ==> exists|k: int| 0 <= k < r@.len() && r@[k] == p,
{
    let mut out: Vec<u32> = Vec::new();
    let mut i: usize = playlist.len();
    while i > 0
        invariant
            i <= playlist@.len() <= u32::MAX,
            forall|k: int| 0 <= k < out@.len() ==> i <= (out@[k] as int) < playlist@.len() && playlist@[out@[k] as int].file@ == file@,
            forall|k: int, l: int| 0 <= k < l < out@.len() ==> out@[k] > out@[l],
            forall|p: int| i <= p < playlist@.len() && playlist@[p].file@ == file@ ==> exists|k: int| 0 <= k < out@.len() && out@[k] == p,
        decreases i,
    {
        i = i - 1;
        if same_text(playlist[i].file.as_str(), file.as_str()) {
            let ghost o = out@;
            out.push(i as u32);
            assert forall|p: int| i <= p < playlist@.len() && playlist@[p].file@ == file@ implies exists|k: int| 0 <= k < out@.len() && out@[k] == p by {
                if p == i {
                    assert(out@[o.len() as int] == p);
                } else {
                    let k = choose|k: int| 0 <= k < o.len() && o[k] == p;
                    assert(out@[k] == p);
                }
            }
        }
    }
    out
}

/// `p` without its songs whose path is `file`, in order.
pub open spec fn strip(p: Seq<SongView>, file: Seq<char>) -> Seq<SongView>
    decreases p.len(),
{
    if p.len() == 0 {
        p
    } else if p.last().file == file {
        strip(p.drop_last(), file)
    } else {
        strip(p.drop_last(), file).push(p.last())
    }
}

proof fn lemma_strip_append(a: Seq<SongView>, b: Seq<SongView>, file: Seq<char>)
    ensures
        strip(a + b, file) == strip(a, file) + strip(b, file),
    decreases b.len(),
{
    if b.len() == 0 {
        assert(a + b =~= a);
        assert(strip(a, file) + strip(b, file) =~= strip(a, file));
    } else {
        lemma_strip_append(a, b.drop_last(), file);
        assert((a + b).drop_last() =~= a + b.drop_last());
        assert((a + b).last() == b.last());
        if b.last().file != file {
            assert(strip(a, file) + strip(b.drop_last(), file).push(b.last()) =~= (strip(a, file)
                + strip(b.drop_last(), file)).push(b.last()));
        }
    }
}

proof fn lemma_strip_none(p: Seq<SongView>, file: Seq<char>)
    requires
        forall|i: int| 0 <= i < p.len() ==> (#[trigger] p[i]).file != file,
    ensures
        strip(p, file) == p,
    decreases p.len(),
{
    if p.len() > 0 {
        lemma_strip_none(p.drop_last(), file);
        assert(p.drop_last().push(p.last()) =~= p);
    }
}

/// Removes from playlist `tag` every song with path `file`: fetches the
/// playlist and deletes the matching positions from the last to the first,
/// so that each deletion leaves the positions still to delete in place.
/// No other playlist changes, whatever happens. Returns whether the fetch
/// and every deletion succeeded; then the playlist holds exactly its other
/// songs, in order.
pub fn untag_song<D: Daemon>(client: &mut D, tag: &str, file: &String) -> (r: bool)
    ensures
        final(client).live() == old(client).live(),
        others_kept(old(client).stored(), final(client).stored(), tag@),
        r ==> untagged(old(client).stored(), final(client).stored(), tag@, file@),
{
    let playlist = match client.playlist(tag) {
        Ok(v) => v,
        Err(_) => {
            return false;
        },
    };
    if playlist.len() > 4294967295 {
        return false;
    }
    let ghost orig = views(playlist@);
    let ghost n = orig.len() as int;
    let ghost f = file@;
    let positions = positions_of(&playlist, file);
    let ghost pos = positions@;
    assert forall|i: int| 0 <= i < n implies (#[trigger] orig[i]).file == playlist@[i].file@ by {}
    let mut k: usize = 0;
    let ghost mut b: int = n;
    assert(orig.subrange(0, n) + strip(orig.subrange(n, n), f) =~= orig);
    while k < positions.len()
        invariant
            k <= positions.len(),
            pos == positions@,
            orig == views(playlist@),
            n == orig.len(),
            f == file@,
            forall|i: int| 0 <= i < n ==> (#[trigger] orig[i]).file == playlist@[i].file@,
            forall|x: int| 0 <= x < pos.len() ==> (pos[x] as int) < n && orig[pos[x] as int].file == f,
            forall|x: int, y: int| 0 <= x < y < pos.len() ==> pos[x] > pos[y],
            forall|q: int| 0 <= q < n && orig[q].file == f ==> exists|x: int| 0 <= x < pos.len() && pos[x] == q,
            b == if k == 0 { n } else { pos[k - 1] as int },
            0 <= b <= n,
            lookup(old(client).stored(), tag@) == Some(orig),
            lookup(client.stored(), tag@) == Some(orig.subrange(0, b) + strip(orig.subrange(b, n), f)),
            others_kept(old(client).stored(), client.stored(), tag@),
            client.live() == old(client).live(),
        decreases positions.len() - k,
    {
        let q: u32 = positions[k];
        let ghost before = client.stored();
        match client.pl_delete(tag, q) {
            Ok(()) => {},
            Err(_) => {
                return false;
            },
        }
        proof {
            let qi = q as int;
            assert(qi < b) by {
                if k > 0 {
                    assert(pos[k - 1] > pos[k as int]);
                }
            }
            assert forall|p: int| qi < p < b implies (#[trigger] orig[p]).file != f by {
                if orig[p].file == f {
                    let x = choose|x: int| 0 <= x < pos.len() && pos[x] == p;
                    if x < k {
                        if x < k - 1 {
                            assert(pos[x] > pos[k - 1]);
                        }
                    } else if x > k {
                        assert(pos[k as int] > pos[x]);
                    }
                }
            }
            let mid = orig.subrange(qi + 1, b);
            lemma_strip_none(mid, f);
            let rest = orig.subrange(b, n);
            assert(orig.subrange(qi, n) =~= seq![orig[qi]] + mid + rest);
            lemma_strip_append(seq![orig[qi]] + mid, rest, f);
            lemma_strip_append(seq![orig[qi]], mid, f);
            assert(pos[k as int] == q);
            assert(orig[qi].file == f);
            assert(seq![orig[qi]].drop_last() =~= Seq::<SongView>::empty());
            assert(seq![orig[qi]].last() == orig[qi]);
            assert(strip(Seq::<SongView>::empty(), f) =~= Seq::<SongView>::empty());
            assert(strip(seq![orig[qi]], f) =~= Seq::<SongView>::empty());
            let cur = orig.subrange(0, b) + strip(rest, f);
            assert(cur.remove(qi) =~= orig.subrange(0, qi) + (mid + strip(rest, f)));
            assert(strip(orig.subrange(qi, n), f) =~= mid + strip(rest, f));
            assert forall|m: Seq<char>| m != tag@ implies #[trigger] lookup(client.stored(), m)
                == lookup(old(client).stored(), m) by {
                assert(lookup(client.stored(), m) == lookup(before, m));
            }
        }
        k = k + 1;
        proof {
            b = q as int;
        }
    }
    proof {
        assert forall|p: int| 0 <= p < b implies (#[trigger] orig[p]).file != f by {
            if orig[p].file == f {
                let x = choose|x: int| 0 <= x < pos.len() && pos[x] == p;
                if k > 0 && x < k - 1 {
                    assert(pos[x] > pos[k - 1]);
                }
            }
        }
        lemma_strip_none(orig.subrange(0, b), f);
        lemma_strip_append(orig.subrange(0, b), orig.subrange(b, n), f);
        assert(orig.subrange(0, b) + orig.subrange(b, n) =~= orig);
    }
    true
}

/// Playlist `tag` of `after` is that of `before` without its songs with path
/// `file`, the rest in order.
pub open spec fn untagged(
    before: Seq<(Seq<char>, Seq<SongView>)>,
    after: Seq<(Seq<char>, Seq<SongView>)>,
    tag: Seq<char>,
    file: Seq<char>,
) -> bool {
    lookup(before, tag) matches Some(p) && lookup(after, tag) == Some(strip(p, file))
}

/// Playlist `tag` of `after` is that of `before` (empty if there was none)
/// with `song` appended.
pub open spec fn tagged(
    before: Seq<(Seq<char>, Seq<SongView>)>,
    after: Seq<(Seq<char>, Seq<SongView>)>,
    tag: Seq<char>,
    song: SongView,
) -> bool {
    lookup(after, tag) == Some(or_empty(lookup(before, tag)).push(song))
}

/// Appends `song` to playlist `tag`, which is made if it does not exist. No
/// other playlist changes. Returns whether the daemon did it.
pub fn tag_song<D: Daemon>(client: &mut D, tag: &str, song: &Song) -> (r: bool)
    ensures
        final(client).live() == old(client).live(),
        others_kept(old(client).stored(), final(client).stored(), tag@),
        r ==> tagged(old(client).stored(), final(client).stored(), tag@, song@),
{
    client.pl_push(tag, song).is_ok()
}

/// The answer of `POST /song/tags` when the daemon's queue cannot be read.
pub open spec fn song_tags_error() -> Seq<char> {
    "Error: Failed to get current song"@
}

/// The answer of `POST /song/tags` otherwise.
pub open spec fn song_tags_done() -> Seq<char> {
    "Tags updated successfully"@
}

/// What `POST /song/tags` did: its answer, and for each tag of `add` and of
/// `remove`, in order, whether that step succeeded.
#[derive(Clone, Debug)]
pub struct SongTagsReport {
    pub message: String,
    pub added: Vec<bool>,
    pub removed: Vec<bool>,
}

/// The playlists went through `states`, one step per tag: first `add` (the
/// song appended, when that step succeeded), then `remove` (every song with
/// its path removed, when that step succeeded). Each step changes no
/// playlist but its own.
pub open spec fn tag_steps(
    states: Seq<Seq<(Seq<char>, Seq<SongView>)>>,
    add: Seq<Seq<char>>,
    remove: Seq<Seq<char>>,
    added: Seq<bool>,
    removed: Seq<bool>,
    song: SongView,
) -> bool {
    &&& states.len() == add.len() + remove.len() + 1
    &&& added.len() == add.len()
    &&& removed.len() == remove.len()
    &&& forall|i: int|
        0 <= i < add.len() ==> others_kept(#[trigger] states[i], states[i + 1], add[i]) && (added[i]
            ==> tagged(states[i], states[i + 1], add[i], song))
    &&& forall|j: int|
        0 <= j < remove.len() ==> others_kept(
            #[trigger] states[add.len() + j],
            states[add.len() + j + 1],
            remove[j],
        ) && (removed[j] ==> untagged(
            states[add.len() + j],
            states[add.len() + j + 1],
            remove[j],
            song.file,
        ))
}

/// `name` is not among `names`.
pub open spec fn not_named(names: Seq<Seq<char>>, name: Seq<char>) -> bool {
    forall|i: int| 0 <= i < names.len() ==> #[trigger] names[i] != name
}

/// `POST /song/tags`: for the song playing now, appends it to the playlist
/// of each tag of `add` and removes every occurrence of it from the playlist
/// of each tag of `remove` (see `tag_song`, `untag_song`). The daemon's play
/// queue is not changed. When the queue cannot be read, answers with the
/// error text and changes nothing; otherwise answers with the success text,
/// and with an empty queue changes nothing.
pub fn update_song_tags<D: Daemon>(client: &mut D, add: &Vec<String>, remove: &Vec<String>) -> (r:
    SongTagsReport)
    ensures
        r.message@ == song_tags_done() || r.message@ == song_tags_error(),
        final(client).live() == old(client).live(),
        r.message@ == song_tags_error() ==> unchanged(*old(client), *final(client)),
        r.message@ == song_tags_done() && old(client).live().len() == 0 ==> final(client).stored()
            == old(client).stored(),
        r.message@ == song_tags_done() && old(client).live().len() > 0 ==> exists|
            states: Seq<Seq<(Seq<char>, Seq<SongView>)>>,
        |
            #[trigger] tag_steps(
                states,
                strs(add@),
                strs(remove@),
                r.added@,
                r.removed@,
                old(client).live()[0],
            ) && states[0] == old(client).stored() && states.last() == final(client).stored(),
        r.message@ == song_tags_done() ==> forall|n: Seq<char>|
            not_named(strs(add@), n) && not_named(strs(remove@), n) ==> #[trigger] lookup(
                final(client).stored(),
                n,
            ) == lookup(old(client).stored(), n),
{
    proof {
        reveal_strlit("Tags updated successfully");
        reveal_strlit("Error: Failed to get current song");
    }
    let song = match client.queue() {
        Ok(live) => {
            if live.len() == 0 {
                return SongTagsReport {
                    message: String::from_str("Tags updated successfully"),
                    added: Vec::new(),
                    removed: Vec::new(),
                };
            }
            assert(views(live@)[0] == live@[0]@);
            let first = live[0].duplicate();
            assert(first@ == old(client).live()[0]);
            first
        },
        Err(_) => {
            return SongTagsReport {
                message: String::from_str("Error: Failed to get current song"),
                added: Vec::new(),
                removed: Vec::new(),
            };
        },
    };
    let ghost s = song@;
    assert(s == old(client).live()[0]);
    let ghost adds = strs(add@);
    let ghost rems = strs(remove@);
    let ghost mut states: Seq<Seq<(Seq<char>, Seq<SongView>)>> = seq![client.stored()];
    let mut added: Vec<bool> = Vec::new();
    let mut i: usize = 0;
    while i < add.len()
        invariant
            i <= add.len(),
            adds == strs(add@),
            s == song@,
            s == old(client).live()[0],
            client.live() == old(client).live(),
            states.len() == i + 1,
            added@.len() == i,
            states[0] == old(client).stored(),
            states.last() == client.stored(),
            forall|k: int|
                0 <= k < i ==> others_kept(#[trigger] states[k], states[k + 1], adds[k]) && (
                added@[k] ==> tagged(states[k], states[k + 1], adds[k], s)),
            forall|n: Seq<char>|
                not_named(adds.take(i as int), n) ==> #[trigger] lookup(client.stored(), n) == lookup(
                    old(client).stored(),
                    n,
                ),
        decreases add.len() - i,
    {
        let ghost before = client.stored();
        let ok = tag_song(client, add[i].as_str(), &song);
        added.push(ok);
        proof {
            assert(adds[i as int] == add@[i as int]@);
            states = states.push(client.stored());
            assert forall|n: Seq<char>| not_named(adds.take(i + 1), n) implies #[trigger] lookup(
                client.stored(),
                n,
            ) == lookup(old(client).stored(), n) by {
                assert(adds.take(i + 1)[i as int] == adds[i as int]);
                assert forall|x: int| 0 <= x < i implies #[trigger] adds.take(i as int)[x] != n by {
                    assert(adds.take(i + 1)[x] == adds.take(i as int)[x]);
                }
            }
        }
        i = i + 1;
    }
    let mut removed: Vec<bool> = Vec::new();
    let mut j: usize = 0;
    while j < remove.len()
        invariant
            j <= remove.len(),
            i == add.len(),
            adds == strs(add@),
            rems == strs(remove@),
            s == song@,
            s == old(client).live()[0],
            client.live() == old(client).live(),
            states.len() == add.len() + j + 1,
            added@.len() == add.len(),
            removed@.len() == j,
            states[0] == old(client).stored(),
            states.last() == client.stored(),
            forall|k: int|
                0 <= k < add.len() ==> others_kept(#[trigger] states[k], states[k + 1], adds[k]) && (
                added@[k] ==> tagged(states[k], states[k + 1], adds[k], s)),
            forall|k: int|
                0 <= k < j ==> others_kept(
                    #[trigger] states[add.len() + k],
                    states[add.len() + k + 1],
                    rems[k],
                ) && (removed@[k] ==> untagged(
                    states[add.len() + k],
                    states[add.len() + k + 1],
                    rems[k],
                    s.file,
                )),
            forall|n: Seq<char>|
                not_named(adds, n) && not_named(rems.take(j as int), n) ==> #[trigger] lookup(
                    client.stored(),
                    n,
                ) == lookup(old(client).stored(), n),
        decreases remove.len() - j,
    {
        let ok = untag_song(client, remove[j].as_str(), &song.file);
        removed.push(ok);
        proof {
            assert(rems[j as int] == remove@[j as int]@);
            let old_states = states;
            states = states.push(client.stored());
            assert forall|k: int| 0 <= k < add.len() implies others_kept(
                #[trigger] states[k],
                states[k + 1],
                adds[k],
            ) && (added@[k] ==> tagged(states[k], states[k + 1], adds[k], s)) by {
                assert(states[k] == old_states[k]);
                assert(states[k + 1] == old_states[k + 1]);
            }
            assert forall|k: int| 0 <= k < j + 1 implies others_kept(
                #[trigger] states[add.len() + k],
                states[add.len() + k + 1],
                rems[k],
            ) && (removed@[k] ==> untagged(
                states[add.len() + k],
                states[add.len() + k + 1],
                rems[k],
                s.file,
            )) by {
                if k < j {
                    assert(states[add.len() + k] == old_states[add.len() + k]);
                    assert(states[add.len() + k + 1] == old_states[add.len() + k + 1]);
                }
            }
            assert forall|n: Seq<char>| not_named(adds, n) && not_named(rems.take(j + 1), n) implies #[trigger] lookup(
                client.stored(),
                n,
            ) == lookup(old(client).stored(), n) by {
                assert(rems.take(j + 1)[j as int] == rems[j as int]);
                assert forall|x: int| 0 <= x < j implies #[trigger] rems.take(j as int)[x] != n by {
                    assert(rems.take(j + 1)[x] == rems.take(j as int)[x]);
                }
            }
        }
        j = j + 1;
    }
    proof {
        assert(adds.take(add.len() as int) =~= adds);
        assert(rems.take(remove.len() as int) =~= rems);
        assert(tag_steps(states, adds, rems, added@, removed@, s));
    }
    let r = SongTagsReport { message: String::from_str("Tags updated successfully"), added, removed };
    assert(tag_steps(states, strs(add@), strs(remove@), r.added@, r.removed@, old(client).live()[0]));
    assert(states[0] == old(client).stored());
    assert(states.last() == client.stored());
    r
}

/// The method and path of each route of the song area.
pub open spec fn route_table() -> Seq<(Method, Seq<char>)> {
    seq![(Method::Post, "/song/tags"@)]
}

/// The routes of the song area.
pub fn routes() -> (r: Vec<Endpoint>)
    ensures
        table(r@) == route_table(),
{
    let mut r: Vec<Endpoint> = Vec::new();
    r.push(Endpoint { method: Method::Post, path: "/song/tags" });
    assert(table(r@) =~= route_table());
    r
}

} // verus!
