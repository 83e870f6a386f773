//! Songs as the daemon reports them, their identity by file path, and the
//! two tags the engine reads: `Album` and `Track`.
use vstd::prelude::*;

use crate::text::{parse_u32, parsed_u32, same_text};
use vstd::std_specs::cmp::PartialEqSpec;

verus! {

broadcast use vstd::seq_lib::group_to_multiset_ensures;

/// A song: its file path, which identifies it within the library, and its
/// tags as ordered (key, value) pairs.
#[derive(Clone, Debug)]
pub struct Song {
    pub file: String,
    pub tags: Vec<(String, String)>,
}

/// What a song is to the engine: its path and its tags.
pub struct SongView {
    pub file: Seq<char>,
    pub tags: Seq<(Seq<char>, Seq<char>)>,
}

impl View for Song {
    type V = SongView;

    open spec fn view(&self) -> SongView {
        SongView { file: self.file@, tags: self.tags@.map_values(|p: (String, String)| (p.0@, p.1@)) }
    }
}

/// The views of a sequence of songs.
pub open spec fn views(s: Seq<Song>) -> Seq<SongView> {
    s.map_values(|x: Song| x@)
}

impl Song {
    /// A song with the given path and no tags.
    pub fn new(file: String) -> (r: Song)
        ensures
            r@.file == file@,
            r@.tags.len() == 0,
    {
        Song { file, tags: Vec::new() }
    }

    /// A song with the given path and tags.
    pub fn with_tags(file: String, tags: Vec<(String, String)>) -> (r: Song)
        ensures
            r.file@ == file@,
            r.tags@ == tags@,
    {
        Song { file, tags }
    }

    /// A copy of the song.
    pub fn duplicate(&self) -> (r: Song)
        ensures
            r@ == self@,
    {
        let mut tags: Vec<(String, String)> = Vec::new();
        let mut i: usize = 0;
        while i < self.tags.len()
            invariant
                i <= self.tags.len(),
                tags@.len() == i,
                forall|j: int|
                    0 <= j < i ==> (#[trigger] tags@[j]).0@ == self.tags@[j].0@ && tags@[j].1@
                        == self.tags@[j].1@,
            decreases self.tags.len() - i,
        {
            let k = self.tags[i].0.clone();
            let v = self.tags[i].1.clone();
            tags.push((k, v));
            i = i + 1;
        }
        let r = Song { file: self.file.clone(), tags };
        assert(r@.tags =~= self@.tags);
        r
    }
}

/// Copies of `songs`, in order.
pub fn copy_songs(songs: &Vec<Song>) -> (r: Vec<Song>)
    ensures
        views(r@) == views(songs@),
{
    let mut out: Vec<Song> = Vec::new();
    let mut i: usize = 0;
    while i < songs.len()
        invariant
            i <= songs.len(),
            views(out@) == views(songs@.subrange(0, i as int)),
        decreases songs.len() - i,
    {
        let s = songs[i].duplicate();
        let ghost o = out@;
        out.push(s);
        assert(views(out@) =~= views(o).push(s@));
        assert(views(songs@.subrange(0, i + 1)) =~= views(songs@.subrange(0, i as int)).push(
            songs@[i as int]@,
        ));
        i = i + 1;
    }
    assert(songs@.subrange(0, songs@.len() as int) =~= songs@);
    out
}

/// The value of the first tag of `tags` whose key is `name`.
pub open spec fn tag_in(tags: Seq<(Seq<char>, Seq<char>)>, name: Seq<char>) -> Option<Seq<char>>
    decreases tags.len(),
{
    if tags.len() == 0 {
        None
    } else if tags[0].0 == name {
        Some(tags[0].1)
    } else {
        tag_in(tags.drop_first(), name)
    }
}

/// The album a song belongs to: its `Album` tag, or `Unknown Album` without one.
pub open spec fn album_of(s: SongView) -> Seq<char> {
    match tag_in(s.tags, "Album"@) {
        Some(v) => v,
        None => "Unknown Album"@,
    }
}

/// The track number of a song: its `Track` tag read as an unsigned number, or
/// 0 where the tag is missing or is not such a number.
pub open spec fn track_of(s: SongView) -> u32 {
    match tag_in(s.tags, "Track"@) {
        Some(v) => match parsed_u32(v) {
            Some(n) => n,
            None => 0,
        },
        None => 0,
    }
}

/// The value of the first tag of `song` whose key is `name`.
pub fn tag_value(song: &Song, name: &str) -> (r: Option<String>)
    ensures
        r matches Some(v) ==> tag_in(song@.tags, name@) == Some(v@),
        r is None ==> tag_in(song@.tags, name@) is None,
{
    let mut i: usize = 0;
    assert(song@.tags.subrange(0, song@.tags.len() as int) =~= song@.tags);
    while i < song.tags.len()
        invariant
            i <= song.tags.len(),
            tag_in(song@.tags, name@) == tag_in(song@.tags.subrange(i as int, song@.tags.len() as int), name@),
        decreases song.tags.len() - i,
    {
        let ghost rest = song@.tags.subrange(i as int, song@.tags.len() as int);
        assert(rest.drop_first() =~= song@.tags.subrange(i + 1, song@.tags.len() as int));
        if same_text(song.tags[i].0.as_str(), name) {
            return Some(song.tags[i].1.clone());
        }
        i = i + 1;
    }
    None
}

/// The album a song belongs to.
pub fn album_name(song: &Song) -> (r: String)
    ensures
        r@ == album_of(song@),
{
    match tag_value(song, "Album") {
        Some(v) => v,
        None => String::from_str("Unknown Album"),
    }
}

/// The track number of a song.
pub fn track_number(song: &Song) -> (r: u32)
    ensures
        r == track_of(song@),
{
    match tag_value(song, "Track") {
        Some(v) => match parse_u32(v.as_str()) {
            Some(n) => n,
            None => 0,
        },
        None => 0,
    }
}

/// The songs of `songs` that belong to album `a`, in their order.
pub open spec fn of_album(songs: Seq<SongView>, a: Seq<char>) -> Seq<SongView>
    decreases songs.len(),
{
    if songs.len() == 0 {
        songs
    } else {
        let rest = of_album(songs.drop_last(), a);
        if album_of(songs.last()) == a {
            rest.push(songs.last())
        } else {
            rest
        }
    }
}

/// The songs are in non-decreasing order of track number.
pub open spec fn sorted_by_track(songs: Seq<SongView>) -> bool {
    forall|i: int, j: int| 0 <= i <= j < songs.len() ==> track_of(songs[i]) <= track_of(songs[j])
}

/// The songs of `found` that belong to album `album`, in non-decreasing order
/// of track number; songs with equal track numbers keep their order.
pub fn album_tracks(album: &String, found: Vec<Song>) -> (r: Vec<Song>)
    ensures
        sorted_by_track(views(r@)),
        views(r@).to_multiset() == of_album(views(found@), album@).to_multiset(),
        forall|i: int| 0 <= i < r@.len() ==> album_of(#[trigger] r@[i]@) == album@,
{
    let ghost orig = views(found@);
    let mut found = found;
    let mut out: Vec<Song> = Vec::new();
    let mut keys: Vec<u32> = Vec::new();
    let ghost mut i: int = 0;
    while found.len() > 0
        invariant
            0 <= i <= orig.len(),
            views(found@) == orig.subrange(i, orig.len() as int),
            keys@.len() == out@.len(),
            forall|j: int| 0 <= j < out@.len() ==> keys@[j] == track_of(#[trigger] out@[j]@),
            sorted_by_track(views(out@)),
            views(out@).to_multiset() == of_album(orig.subrange(0, i), album@).to_multiset(),
            forall|j: int| 0 <= j < out@.len() ==> album_of(#[trigger] out@[j]@) == album@,
        decreases found.len(),
    {
        assert(views(found@).len() == found@.len());
        let ghost pre = orig.subrange(0, i + 1);
        assert(pre.drop_last() =~= orig.subrange(0, i));
        assert(pre.last() == orig[i]);
        let ghost fv = found@;
        let song = found.remove(0);
        assert(views(fv)[0] == fv[0]@);
        assert(orig.subrange(i, orig.len() as int)[0] == orig[i]);
        assert(song@ == orig[i]);
        assert(views(found@) =~= views(fv).drop_first());
        let a = album_name(&song);
        if a == *album {
            let k: u32 = track_number(&song);
            let mut p: usize = out.len();
            while p > 0 && keys[p - 1] > k
                invariant
                    p <= out@.len(),
                    keys@.len() == out@.len(),
                    forall|j: int| p <= j < out@.len() ==> keys@[j] > k,
                decreases p,
            {
                p = p - 1;
            }
            let ghost old_out = views(out@);
            let ghost old_keys = keys@;
            out.insert(p, song);
            keys.insert(p, k);
            proof {
                assert(views(out@) =~= old_out.insert(p as int, song@));
                assert forall|j: int| 0 <= j < out@.len() implies keys@[j] == track_of(
                    #[trigger] out@[j]@,
                ) by {
                    if j < p {
                        assert(out@[j]@ == old_out[j]);
                    } else if j > p {
                        assert(out@[j]@ == old_out[j - 1]);
                    }
                }
                assert forall|x: int, y: int| 0 <= x <= y < out@.len() implies track_of(
                    views(out@)[x],
                ) <= track_of(views(out@)[y]) by {
                    assert(keys@[x] == track_of(out@[x]@));
                    assert(keys@[y] == track_of(out@[y]@));
                    if x < p && y > p {
                        assert(old_keys[x] == keys@[x]);
                        assert(old_keys[y - 1] == keys@[y]);
                        assert(old_keys[x] == track_of(old_out[x]));
                        assert(old_keys[y - 1] == track_of(old_out[y - 1]));
                    } else if x < p && y == p {
                        if p > 0 {
                            assert(old_keys[p - 1] <= k);
                            assert(track_of(old_out[x]) <= track_of(old_out[p - 1]));
                            assert(old_keys[p - 1] == track_of(old_out[p - 1]));
                        }
                    } else if x == p && y > p {
                        assert(old_keys[y - 1] > k);
                    } else if x < p && y < p {
                        assert(track_of(old_out[x]) <= track_of(old_out[y]));
                    } else if x > p {
                        assert(track_of(old_out[x - 1]) <= track_of(old_out[y - 1]));
                    }
                }
                assert forall|j: int| 0 <= j < out@.len() implies album_of(#[trigger] out@[j]@)
                    == album@ by {
                    if j < p {
                        assert(out@[j]@ == old_out[j]);
                    } else if j > p {
                        assert(out@[j]@ == old_out[j - 1]);
                    }
                }
            }
        }
        proof {
            i = i + 1;
            assert(views(found@) =~= orig.subrange(i, orig.len() as int));
        }
    }
    assert(orig.subrange(0, orig.len() as int) =~= orig);
    out
}

/// A song identified by its file path alone: two are equal exactly when their
/// paths are, and hashing reads the path only.
#[derive(Clone, Debug)]
pub struct HashableSong(pub Song);

impl PartialEq for HashableSong {
    fn eq(&self, other: &HashableSong) -> (r: bool)
        ensures
            r == (self.0.file@ == other.0.file@),
    {
        self.0.file == other.0.file
    }
}

impl vstd::std_specs::cmp::PartialEqSpecImpl for HashableSong {
    open spec fn obeys_eq_spec() -> bool {
        true
    }

    open spec fn eq_spec(&self, other: &HashableSong) -> bool {
        self.0.file@ == other.0.file@
    }
}

impl Eq for HashableSong {

}

impl core::hash::Hash for HashableSong {
    /// Relies on `String: Hash`: feeds the path, and nothing else, to the hasher.
    #[verifier::external_body]
    fn hash<H: core::hash::Hasher>(&self, state: &mut H) {
        self.0.file.hash(state);
    }
}

impl From<HashableSong> for Song {
    fn from(hashable_song: HashableSong) -> (r: Song)
        ensures
            r == hashable_song.0,
    {
        hashable_song.0
    }
}

impl vstd::std_specs::convert::FromSpecImpl<HashableSong> for Song {
    open spec fn obeys_from_spec() -> bool {
        true
    }

    open spec fn from_spec(hashable_song: HashableSong) -> Song {
        hashable_song.0
    }
}

impl HashableSong {
    /// The wrapped song.
    pub fn into_song(self) -> (r: Song)
        ensures
            r == self.0,
    {
        self.0
    }
}

/// Two songs with the same path are one song: as identities they are equal,
/// and the set of their identities has one element.
pub proof fn lemma_identity(a: HashableSong, b: HashableSong)
    requires
        a.0.file@ == b.0.file@,
    ensures
        a.eq_spec(&b),
        set![a.0@.file, b.0@.file].len() == 1,
{
    assert(set![a.0@.file, b.0@.file] =~= set![a.0@.file]);
}

} // verus!
