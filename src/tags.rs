//! The tag filter: which tag playlists admit songs (`any`) and which exclude
//! them (`not`), and the set of songs that this admits.
use vstd::prelude::*;

use crate::daemon::{lookup, or_empty, unchanged, Daemon, JukeError};
use crate::song::{views, Song, SongView};
use crate::text::{pieces_of, same_text, split_trimmed};

verus! {

/// The tag playlists that admit songs and those that exclude them. An entry
/// may name several tags separated by commas.
#[derive(Clone, Debug)]
pub struct TagsData {
    pub any: Vec<String>,
    pub not: Vec<String>,
}

/// The characters of each string.
pub open spec fn strs(v: Seq<String>) -> Seq<Seq<char>> {
    v.map_values(|s: String| s@)
}

/// The tag names of a list: each entry split on commas and trimmed, with the
/// empty names left out, in order.
pub open spec fn normalized(list: Seq<Seq<char>>) -> Seq<Seq<char>>
    decreases list.len(),
{
    if list.len() == 0 {
        Seq::empty()
    } else {
        normalized(list.drop_last()) + pieces_of(list.last(), ',', false)
    }
}

/// The tag names of a list of entries.
pub fn normalize(list: &Vec<String>) -> (r: Vec<String>)
    ensures
        strs(r@) == normalized(strs(list@)),
{
    let mut out: Vec<String> = Vec::new();
    let mut i: usize = 0;
    while i < list.len()
        invariant
            i <= list.len(),
            strs(out@) == normalized(strs(list@.subrange(0, i as int))),
        decreases list.len() - i,
    {
        let ghost pre = strs(list@.subrange(0, i + 1));
        assert(pre.drop_last() =~= strs(list@.subrange(0, i as int)));
        assert(pre.last() == list@[i as int]@);
        let pieces = split_trimmed(list[i].as_str(), ',', false);
        let mut j: usize = 0;
        let ghost base = strs(out@);
        while j < pieces.len()
            invariant
                j <= pieces.len(),
                strs(pieces@) == pieces_of(list@[i as int]@, ',', false),
                strs(out@) == base + strs(pieces@.subrange(0, j as int)),
            decreases pieces.len() - j,
        {
            let p = pieces[j].clone();
            let ghost o = strs(out@);
            out.push(p);
            assert(strs(out@) =~= o.push(p@));
            assert(strs(pieces@.subrange(0, j + 1)) =~= strs(pieces@.subrange(0, j as int)).push(
                pieces@[j as int]@,
            ));
            assert(base + strs(pieces@.subrange(0, j + 1)) =~= (base + strs(
                pieces@.subrange(0, j as int),
            )).push(p@));
            j = j + 1;
        }
        assert(pieces@.subrange(0, j as int) =~= pieces@);
        i = i + 1;
    }
    assert(list@.subrange(0, i as int) =~= list@);
    out
}

/// The value FNV-1a gives `cs` from the running hash `h`.
pub open spec fn fnv_chars(h: u64, cs: Seq<char>) -> u64
    decreases cs.len(),
{
    if cs.len() == 0 {
        h
    } else {
        fnv_step(fnv_chars(h, cs.drop_last()), cs.last() as u32 as u64)
    }
}

/// The running hash after the strings of `list`, each closed by a separator
/// that no character takes (`0xFFFF_FFFF`).
pub open spec fn fnv_list_open(h: u64, list: Seq<Seq<char>>) -> u64
    decreases list.len(),
{
    if list.len() == 0 {
        h
    } else {
        fnv_step(fnv_chars(fnv_list_open(h, list.drop_last()), list.last()), 0xFFFF_FFFF)
    }
}

/// One FNV-1a step with the value `v`.
pub open spec fn fnv_step(h: u64, v: u64) -> u64 {
    ((h ^ v) as int * 0x100000001b3 % 0x10000000000000000) as u64
}

/// The FNV-1a 64-bit offset basis, where every fingerprint starts.
pub const FNV_OFFSET: u64 = 0xcbf29ce484222325;

/// The fingerprint of a filter: a 64-bit FNV-1a hash over the entries of
/// `any` and then of `not`, in list order.
pub open spec fn fingerprint_of(any: Seq<Seq<char>>, not: Seq<Seq<char>>) -> u64 {
    fnv_step(fnv_list_open(fnv_step(fnv_list_open(FNV_OFFSET, any), 0x1_0000_0000), not), 0x1_0000_0000)
}

fn fnv_mix(h: u64, v: u64) -> (r: u64)
    ensures
        r == fnv_step(h, v),
{
    proof {
        vstd::arithmetic::mul::lemma_mul_is_commutative((h ^ v) as int, 0x100000001b3);
    }
    (h ^ v).wrapping_mul(0x100000001b3)
}

fn fnv_string(h: u64, s: &String) -> (r: u64)
    ensures
        r == fnv_chars(h, s@),
{
    let cs = crate::text::chars_of(s.as_str());
    let mut acc: u64 = h;
    let mut i: usize = 0;
    while i < cs.len()
        invariant
            i <= cs.len(),
            cs@ == s@,
            acc == fnv_chars(h, cs@.subrange(0, i as int)),
        decreases cs.len() - i,
    {
        let ghost pre = cs@.subrange(0, i + 1);
        assert(pre.drop_last() =~= cs@.subrange(0, i as int));
        acc = fnv_mix(acc, cs[i] as u32 as u64);
        i = i + 1;
    }
    assert(cs@.subrange(0, i as int) =~= cs@);
    acc
}

fn fnv_strings(h: u64, list: &Vec<String>) -> (r: u64)
    ensures
        r == fnv_list_open(h, strs(list@)),
{
    let mut acc: u64 = h;
    let mut i: usize = 0;
    while i < list.len()
        invariant
            i <= list.len(),
            acc == fnv_list_open(h, strs(list@.subrange(0, i as int))),
        decreases list.len() - i,
    {
        let ghost pre = strs(list@.subrange(0, i + 1));
        assert(pre.drop_last() =~= strs(list@.subrange(0, i as int)));
        acc = fnv_string(acc, &list[i]);
        acc = fnv_mix(acc, 0xFFFF_FFFF);
        i = i + 1;
    }
    assert(list@.subrange(0, i as int) =~= list@);
    acc
}

impl TagsData {
    /// The boot filter: songs tagged `jukebox`, except those tagged `explicit`.
    pub fn defaults() -> (r: TagsData)
        ensures
            strs(r.any@) == seq!["jukebox"@],
            strs(r.not@) == seq!["explicit"@],
    {
        let mut any: Vec<String> = Vec::new();
        any.push(String::from_str("jukebox"));
        let mut not: Vec<String> = Vec::new();
        not.push(String::from_str("explicit"));
        let r = TagsData { any, not };
        assert(strs(r.any@) =~= seq!["jukebox"@]);
        assert(strs(r.not@) =~= seq!["explicit"@]);
        r
    }

    /// The fingerprint of this filter, which the song cache is keyed on.
    pub fn fingerprint(&self) -> (r: u64)
        ensures
            r == fingerprint_of(strs(self.any@), strs(self.not@)),
    {
        let h: u64 = fnv_strings(FNV_OFFSET, &self.any);
        let h: u64 = fnv_mix(h, 0x1_0000_0000);
        let h: u64 = fnv_strings(h, &self.not);
        fnv_mix(h, 0x1_0000_0000)
    }

    /// The tag names of `any` and of `not`.
    pub fn tags_to_strings(&self) -> (r: (Vec<String>, Vec<String>))
        ensures
            strs(r.0@) == normalized(strs(self.any@)),
            strs(r.1@) == normalized(strs(self.not@)),
    {
        (normalize(&self.any), normalize(&self.not))
    }
}

/// What one playlist fetch returned, as the engine sees it.
pub type FetchView = Result<Seq<SongView>, JukeError>;

/// The views of a run of playlist fetches.
pub open spec fn fetch_views(rs: Seq<Result<Vec<Song>, JukeError>>) -> Seq<FetchView> {
    rs.map_values(|r: Result<Vec<Song>, JukeError>| result_view(r))
}

/// The view of a fetch, or of a computed set of songs.
pub open spec fn result_view(r: Result<Vec<Song>, JukeError>) -> FetchView {
    match r {
        Ok(v) => Ok(views(v@)),
        Err(e) => Err(e),
    }
}

/// The songs a fetch contributes: none where it failed.
pub open spec fn fetched(r: FetchView) -> Seq<SongView> {
    match r {
        Ok(s) => s,
        Err(_) => Seq::empty(),
    }
}

/// The file paths of a run of songs.
pub open spec fn files_of(s: Seq<SongView>) -> Set<Seq<char>> {
    Set::new(|f: Seq<char>| exists|i: int| 0 <= i < s.len() && s[i].file == f)
}

/// The file paths of the songs of all the fetches.
pub open spec fn union_files(rs: Seq<FetchView>) -> Set<Seq<char>> {
    Set::new(|f: Seq<char>| exists|i: int| 0 <= i < rs.len() && files_of(fetched(rs[i])).contains(f))
}

/// The first error of a run of fetches that is not `NotFound`.
pub open spec fn first_fatal(rs: Seq<FetchView>) -> Option<JukeError>
    decreases rs.len(),
{
    if rs.len() == 0 {
        None
    } else if rs[0] is Err && rs[0] != Err::<Seq<SongView>, JukeError>(JukeError::NotFound) {
        Some(rs[0]->Err_0)
    } else {
        first_fatal(rs.drop_first())
    }
}

/// No two songs share a path.
pub open spec fn unique_files(s: Seq<SongView>) -> bool {
    forall|i: int, j: int| 0 <= i < s.len() && 0 <= j < s.len() && s[i].file == s[j].file ==> i == j
}

/// The paths of the allowed set: those of some `any` playlist and of no `not`
/// playlist.
pub open spec fn allowed_files(any: Seq<FetchView>, not: Seq<FetchView>) -> Set<Seq<char>> {
    union_files(any).difference(union_files(not))
}

/// The song appears in one of the fetched playlists.
pub open spec fn comes_from(s: SongView, rs: Seq<FetchView>) -> bool {
    exists|i: int, k: int| 0 <= i < rs.len() && 0 <= k < fetched(rs[i]).len() && fetched(rs[i])[k] == s
}

/// What the allowed set is, given the fetched `any` and `not` playlists: the
/// first error other than `NotFound`, if any; else songs of the `any`
/// playlists, one per path, whose paths are exactly the allowed ones.
pub open spec fn is_allowed_result(
    r: Result<Seq<SongView>, JukeError>,
    any: Seq<FetchView>,
    not: Seq<FetchView>,
) -> bool {
    match first_fatal(any + not) {
        Some(e) => r == Err::<Seq<SongView>, JukeError>(e),
        None => match r {
            Ok(s) => files_of(s) == allowed_files(any, not) && unique_files(s) && forall|i: int|
                0 <= i < s.len() ==> comes_from(#[trigger] s[i], any),
            Err(_) => false,
        },
    }
}

proof fn lemma_first_fatal_not_found(rs: Seq<FetchView>)
    ensures
        first_fatal(rs) != Some(JukeError::NotFound),
    decreases rs.len(),
{
    if rs.len() > 0 {
        lemma_first_fatal_not_found(rs.drop_first());
    }
}

proof fn lemma_first_fatal_append(a: Seq<FetchView>, b: Seq<FetchView>)
    ensures
        first_fatal(a + b) == match first_fatal(a) {
            Some(e) => Some(e),
            None => first_fatal(b),
        },
    decreases a.len(),
{
    if a.len() > 0 {
        assert((a + b).drop_first() =~= a.drop_first() + b);
        lemma_first_fatal_append(a.drop_first(), b);
    } else {
        assert(a + b =~= b);
    }
}

proof fn lemma_first_fatal_push(a: Seq<FetchView>, x: FetchView)
    ensures
        first_fatal(a.push(x)) == match first_fatal(a) {
            Some(e) => Some(e),
            None => if x is Err && x != Err::<Seq<SongView>, JukeError>(JukeError::NotFound) {
                Some(x->Err_0)
            } else {
                None
            },
        },
{
    lemma_first_fatal_append(a, seq![x]);
    assert(a.push(x) =~= a + seq![x]);
    assert(seq![x].drop_first() =~= Seq::<FetchView>::empty());
    assert(seq![x][0] == x);
    assert(first_fatal(Seq::<FetchView>::empty()) is None);
}

/// Whether some song of `set` has path `file`, and where.
fn find_file(set: &Vec<Song>, file: &String) -> (r: Option<usize>)
    ensures
        r matches Some(i) ==> i < set@.len() && set@[i as int].file@ == file@,
        r is None ==> !files_of(views(set@)).contains(file@),
{
    let mut i: usize = 0;
    while i < set.len()
        invariant
            i <= set.len(),
            forall|j: int| 0 <= j < i ==> set@[j].file@ != file@,
        decreases set.len() - i,
    {
        if same_text(set[i].file.as_str(), file.as_str()) {
            return Some(i);
        }
        i = i + 1;
    }
    assert forall|j: int| 0 <= j < set@.len() implies views(set@)[j].file != file@ by {
        assert(views(set@)[j] == set@[j]@);
    }
    None
}

/// The allowed set, from the fetched `any` and `not` playlists in order.
pub fn allowed_from(
    any: &Vec<Result<Vec<Song>, JukeError>>,
    not: &Vec<Result<Vec<Song>, JukeError>>,
) -> (r: Result<Vec<Song>, JukeError>)
    ensures
        is_allowed_result(
            result_view(r),
            fetch_views(any@),
            fetch_views(not@),
        ),
{
    let ghost fa = fetch_views(any@);
    let ghost fnn = fetch_views(not@);
    proof {
        lemma_first_fatal_append(fa, fnn);
    }
    let mut set: Vec<Song> = Vec::new();
    let mut i: usize = 0;
    while i < any.len()
        invariant
            i <= any.len(),
            fa == fetch_views(any@),
            fnn == fetch_views(not@),
            first_fatal(fa.subrange(0, i as int)) is None,
            files_of(views(set@)) == union_files(fa.subrange(0, i as int)),
            unique_files(views(set@)),
            forall|j: int| 0 <= j < set@.len() ==> comes_from(#[trigger] views(set@)[j], fa),
        decreases any.len() - i,
    {
        let ghost pre = fa.subrange(0, i + 1);
        assert(pre =~= fa.subrange(0, i as int).push(fa[i as int]));
        proof {
            lemma_first_fatal_push(fa.subrange(0, i as int), fa[i as int]);
        }
        match &any[i] {
            Err(e) => {
                if *e != JukeError::NotFound {
                    proof {
                        assert(fa[i as int] == Err::<Seq<SongView>, JukeError>(*e));
                        lemma_first_fatal_append(fa, fnn);
                        lemma_first_fatal_append(fa.subrange(0, i as int), fa.subrange(i as int, fa.len() as int));
                        assert(fa =~= fa.subrange(0, i as int) + fa.subrange(i as int, fa.len() as int));
                        assert(fa.subrange(i as int, fa.len() as int)[0] == fa[i as int]);
                    }
                    return Err(*e);
                }
                assert(union_files(pre) =~= union_files(fa.subrange(0, i as int))) by {
                    assert forall|f: Seq<char>| union_files(pre).contains(f) implies union_files(
                        fa.subrange(0, i as int),
                    ).contains(f) by {
                        let j = choose|j: int| 0 <= j < pre.len() && files_of(fetched(pre[j])).contains(f);
                        if j == i {
                            assert(fetched(pre[j]) =~= Seq::<SongView>::empty());
                        } else {
                            assert(pre[j] == fa.subrange(0, i as int)[j]);
                        }
                    }
                    assert forall|f: Seq<char>| union_files(fa.subrange(0, i as int)).contains(f) implies union_files(
                        pre,
                    ).contains(f) by {
                        let j = choose|j: int| 0 <= j < i && files_of(fetched(fa.subrange(0, i as int)[j])).contains(f);
                        assert(pre[j] == fa.subrange(0, i as int)[j]);
                    }
                }
            },
            Ok(songs) => {
                let ghost base = files_of(views(set@));
                let ghost sv = views(songs@);
                assert(fa[i as int] == Ok::<Seq<SongView>, JukeError>(sv));
                let mut k: usize = 0;
                while k < songs.len()
                    invariant
                        k <= songs.len(),
                        sv == views(songs@),
                        fa[i as int] == Ok::<Seq<SongView>, JukeError>(sv),
                        i < fa.len(),
                        files_of(views(set@)) == base + files_of(sv.subrange(0, k as int)),
                        unique_files(views(set@)),
                        forall|j: int| 0 <= j < set@.len() ==> comes_from(#[trigger] views(set@)[j], fa),
                    decreases songs.len() - k,
                {
                    let ghost before = views(set@);
                    let ghost kk = sv.subrange(0, k + 1);
                    assert(files_of(kk) =~= files_of(sv.subrange(0, k as int)).insert(sv[k as int].file)) by {
                        assert forall|f: Seq<char>| files_of(kk).contains(f) implies files_of(sv.subrange(0, k as int)).insert(sv[k as int].file).contains(f) by {
                            let j = choose|j: int| 0 <= j < kk.len() && kk[j].file == f;
                            if j < k {
                                assert(sv.subrange(0, k as int)[j] == kk[j]);
                            }
                        }
                        assert forall|f: Seq<char>| files_of(sv.subrange(0, k as int)).insert(sv[k as int].file).contains(f) implies files_of(kk).contains(f) by {
                            if f == sv[k as int].file {
                                assert(kk[k as int] == sv[k as int]);
                            } else {
                                let j = choose|j: int| 0 <= j < k && sv.subrange(0, k as int)[j].file == f;
                                assert(kk[j] == sv.subrange(0, k as int)[j]);
                            }
                        }
                    }
                    assert(sv[k as int] == songs@[k as int]@);
                    if find_file(&set, &songs[k].file).is_none() {
                        let s = songs[k].duplicate();
                        set.push(s);
                        proof {
                            assert(views(set@) =~= before.push(s@));
                            assert forall|f: Seq<char>| files_of(views(set@)).contains(f) == files_of(before).insert(s@.file).contains(f) by {
                                if files_of(before).contains(f) {
                                    let j = choose|j: int| 0 <= j < before.len() && before[j].file == f;
                                    assert(views(set@)[j] == before[j]);
                                }
                                if files_of(views(set@)).contains(f) {
                                    let j = choose|j: int| 0 <= j < views(set@).len() && views(set@)[j].file == f;
                                    if j < before.len() {
                                        assert(views(set@)[j] == before[j]);
                                    }
                                }
                                if f == s@.file {
                                    assert(views(set@)[before.len() as int] == s@);
                                }
                            }
                            assert(files_of(views(set@)) =~= files_of(before).insert(s@.file));
                            assert forall|x: int, y: int| 0 <= x < views(set@).len() && 0 <= y < views(set@).len() && views(set@)[x].file == views(set@)[y].file implies x == y by {
                                if x < before.len() && y == before.len() {
                                    assert(views(set@)[x] == before[x]);
                                }
                                if y < before.len() && x == before.len() {
                                    assert(views(set@)[y] == before[y]);
                                }
                                if x < before.len() && y < before.len() {
                                    assert(views(set@)[x] == before[x]);
                                    assert(views(set@)[y] == before[y]);
                                }
                            }
                            assert forall|j: int| 0 <= j < set@.len() implies comes_from(#[trigger] views(set@)[j], fa) by {
                                if j < before.len() {
                                    assert(views(set@)[j] == before[j]);
                                } else {
                                    assert(fetched(fa[i as int])[k as int] == s@);
                                }
                            }
                        }
                    } else {
                        proof {
                            assert(files_of(before).contains(sv[k as int].file)) by {
                                let j = choose|j: int| 0 <= j < set@.len() && set@[j].file@ == songs@[k as int].file@;
                                assert(before[j] == set@[j]@);
                            }
                            assert(files_of(before).insert(sv[k as int].file) =~= files_of(before));
                        }
                    }
                    k = k + 1;
                }
                proof {
                    assert(sv.subrange(0, k as int) =~= sv);
                    assert(union_files(pre) =~= union_files(fa.subrange(0, i as int)) + files_of(sv)) by {
                        assert forall|f: Seq<char>| union_files(pre).contains(f) implies (union_files(fa.subrange(0, i as int)) + files_of(sv)).contains(f) by {
                            let j = choose|j: int| 0 <= j < pre.len() && files_of(fetched(pre[j])).contains(f);
                            if j < i {
                                assert(pre[j] == fa.subrange(0, i as int)[j]);
                            }
                        }
                        assert forall|f: Seq<char>| (union_files(fa.subrange(0, i as int)) + files_of(sv)).contains(f) implies union_files(pre).contains(f) by {
                            if files_of(sv).contains(f) {
                                assert(fetched(pre[i as int]) == sv);
                            } else {
                                let j = choose|j: int| 0 <= j < i && files_of(fetched(fa.subrange(0, i as int)[j])).contains(f);
                                assert(pre[j] == fa.subrange(0, i as int)[j]);
                            }
                        }
                    }
                }
            },
        }
        i = i + 1;
    }
    assert(fa.subrange(0, i as int) =~= fa);
    let ghost uany = union_files(fa);
    let mut n: usize = 0;
    while n < not.len()
        invariant
            n <= not.len(),
            fa == fetch_views(any@),
            fnn == fetch_views(not@),
            first_fatal(fa) is None,
            first_fatal(fnn.subrange(0, n as int)) is None,
            uany == union_files(fa),
            files_of(views(set@)) == uany.difference(union_files(fnn.subrange(0, n as int))),
            unique_files(views(set@)),
            forall|j: int| 0 <= j < set@.len() ==> comes_from(#[trigger] views(set@)[j], fa),
        decreases not.len() - n,
    {
        let ghost pre = fnn.subrange(0, n + 1);
        assert(pre =~= fnn.subrange(0, n as int).push(fnn[n as int]));
        proof {
            lemma_first_fatal_push(fnn.subrange(0, n as int), fnn[n as int]);
        }
        match &not[n] {
            Err(e) => {
                if *e != JukeError::NotFound {
                    proof {
                        assert(fnn[n as int] == Err::<Seq<SongView>, JukeError>(*e));
                        lemma_first_fatal_append(fa, fnn);
                        lemma_first_fatal_append(fnn.subrange(0, n as int), fnn.subrange(n as int, fnn.len() as int));
                        assert(fnn =~= fnn.subrange(0, n as int) + fnn.subrange(n as int, fnn.len() as int));
                        assert(fnn.subrange(n as int, fnn.len() as int)[0] == fnn[n as int]);
                    }
                    return Err(*e);
                }
                assert(union_files(pre) =~= union_files(fnn.subrange(0, n as int))) by {
                    assert forall|f: Seq<char>| union_files(pre).contains(f) implies union_files(
                        fnn.subrange(0, n as int),
                    ).contains(f) by {
                        let j = choose|j: int| 0 <= j < pre.len() && files_of(fetched(pre[j])).contains(f);
                        if j == n {
                            assert(fetched(pre[j]) =~= Seq::<SongView>::empty());
                        } else {
                            assert(pre[j] == fnn.subrange(0, n as int)[j]);
                        }
                    }
                    assert forall|f: Seq<char>| union_files(fnn.subrange(0, n as int)).contains(f) implies union_files(
                        pre,
                    ).contains(f) by {
                        let j = choose|j: int| 0 <= j < n && files_of(fetched(fnn.subrange(0, n as int)[j])).contains(f);
                        assert(pre[j] == fnn.subrange(0, n as int)[j]);
                    }
                }
            },
            Ok(songs) => {
                let ghost sv = views(songs@);
                assert(fnn[n as int] == Ok::<Seq<SongView>, JukeError>(sv));
                let ghost base = union_files(fnn.subrange(0, n as int));
                let mut k: usize = 0;
                while k < songs.len()
                    invariant
                        k <= songs.len(),
                        sv == views(songs@),
                        files_of(views(set@)) == uany.difference(base + files_of(sv.subrange(0, k as int))),
                        unique_files(views(set@)),
                        forall|j: int| 0 <= j < set@.len() ==> comes_from(#[trigger] views(set@)[j], fa),
                    decreases songs.len() - k,
                {
                    let ghost before = views(set@);
                    let ghost kk = sv.subrange(0, k + 1);
                    let ghost g = sv[k as int].file;
                    assert(sv[k as int] == songs@[k as int]@);
                    assert(files_of(kk) =~= files_of(sv.subrange(0, k as int)).insert(g)) by {
                        assert forall|f: Seq<char>| files_of(kk).contains(f) implies files_of(sv.subrange(0, k as int)).insert(g).contains(f) by {
                            let j = choose|j: int| 0 <= j < kk.len() && kk[j].file == f;
                            if j < k {
                                assert(sv.subrange(0, k as int)[j] == kk[j]);
                            }
                        }
                        assert forall|f: Seq<char>| files_of(sv.subrange(0, k as int)).insert(g).contains(f) implies files_of(kk).contains(f) by {
                            if f == g {
                                assert(kk[k as int] == sv[k as int]);
                            } else {
                                let j = choose|j: int| 0 <= j < k && sv.subrange(0, k as int)[j].file == f;
                                assert(kk[j] == sv.subrange(0, k as int)[j]);
                            }
                        }
                    }
                    match find_file(&set, &songs[k].file) {
                        Some(p) => {
                            let ghost before_set = set@;
                            set.remove(p);
                            proof {
                                assert(before[p as int] == before_set[p as int]@);
                                assert(before[p as int].file == g);
                                assert(views(set@) =~= before.remove(p as int));
                                assert forall|f: Seq<char>| files_of(views(set@)).contains(f) == files_of(before).remove(g).contains(f) by {
                                    if files_of(views(set@)).contains(f) {
                                        let j = choose|j: int| 0 <= j < views(set@).len() && views(set@)[j].file == f;
                                        if j < p {
                                            assert(views(set@)[j] == before[j]);
                                        } else {
                                            assert(views(set@)[j] == before[j + 1]);
                                        }
                                    }
                                    if files_of(before).remove(g).contains(f) {
                                        let j = choose|j: int| 0 <= j < before.len() && before[j].file == f;
                                        assert(j != p);
                                        if j < p {
                                            assert(views(set@)[j] == before[j]);
                                        } else {
                                            assert(views(set@)[j - 1] == before[j]);
                                        }
                                    }
                                }
                                assert(files_of(views(set@)) =~= files_of(before).remove(g));
                                assert forall|x: int, y: int| 0 <= x < views(set@).len() && 0 <= y < views(set@).len() && views(set@)[x].file == views(set@)[y].file implies x == y by {
                                    let x0 = if x < p { x } else { x + 1 };
                                    let y0 = if y < p { y } else { y + 1 };
                                    assert(views(set@)[x] == before[x0]);
                                    assert(views(set@)[y] == before[y0]);
                                }
                                assert forall|j: int| 0 <= j < set@.len() implies comes_from(#[trigger] views(set@)[j], fa) by {
                                    if j < p {
                                        assert(views(set@)[j] == before[j]);
                                    } else {
                                        assert(views(set@)[j] == before[j + 1]);
                                    }
                                }
                            }
                        },
                        None => {},
                    }
                    assert(files_of(views(set@)) =~= uany.difference(base + files_of(kk)));
                    k = k + 1;
                }
                proof {
                    assert(sv.subrange(0, k as int) =~= sv);
                    assert(union_files(pre) =~= union_files(fnn.subrange(0, n as int)) + files_of(sv)) by {
                        assert forall|f: Seq<char>| union_files(pre).contains(f) implies (union_files(fnn.subrange(0, n as int)) + files_of(sv)).contains(f) by {
                            let j = choose|j: int| 0 <= j < pre.len() && files_of(fetched(pre[j])).contains(f);
                            if j < n {
                                assert(pre[j] == fnn.subrange(0, n as int)[j]);
                            }
                        }
                        assert forall|f: Seq<char>| (union_files(fnn.subrange(0, n as int)) + files_of(sv)).contains(f) implies union_files(pre).contains(f) by {
                            if files_of(sv).contains(f) {
                                assert(fetched(pre[n as int]) == sv);
                            } else {
                                let j = choose|j: int| 0 <= j < n && files_of(fetched(fnn.subrange(0, n as int)[j])).contains(f);
                                assert(pre[j] == fnn.subrange(0, n as int)[j]);
                            }
                        }
                    }
                }
            },
        }
        n = n + 1;
    }
    assert(fnn.subrange(0, n as int) =~= fnn);
    Ok(set)
}

/// What a fetch says of the stored playlist it read: its songs, or that
/// there is none; another failure says nothing.
pub open spec fn agrees(f: FetchView, st: Option<Seq<SongView>>) -> bool {
    match f {
        Ok(s) => st == Some(s),
        Err(e) => e == JukeError::NotFound ==> st is None,
    }
}

/// The paths of the songs of the stored playlists named in `names`; a name
/// without a playlist adds none.
pub open spec fn stored_union(pls: Seq<(Seq<char>, Seq<SongView>)>, names: Seq<Seq<char>>) -> Set<
    Seq<char>,
> {
    Set::new(
        |f: Seq<char>|
            exists|i: int|
                0 <= i < names.len() && files_of(or_empty(lookup(pls, names[i]))).contains(f),
    )
}

/// The paths a filter with entries `any` and `not` admits over the stored
/// playlists `pls`: those of a playlist named in `any` and of none named in
/// `not`, after normalization.
pub open spec fn allowed_in(
    pls: Seq<(Seq<char>, Seq<SongView>)>,
    any: Seq<Seq<char>>,
    not: Seq<Seq<char>>,
) -> Set<Seq<char>> {
    stored_union(pls, normalized(any)).difference(stored_union(pls, normalized(not)))
}

/// Every name of `a` also occurs in `b`.
pub open spec fn names_within(a: Seq<Seq<char>>, b: Seq<Seq<char>>) -> bool {
    forall|i: int| 0 <= i < a.len() ==> exists|j: int| 0 <= j < b.len() && b[j] == #[trigger] a[i]
}

/// The songs a list of tag names selects over the stored playlists depend
/// only on which names it holds, not on their order or repetition.
pub proof fn lemma_stored_union_order_free(
    pls: Seq<(Seq<char>, Seq<SongView>)>,
    a: Seq<Seq<char>>,
    b: Seq<Seq<char>>,
)
    requires
        names_within(a, b),
        names_within(b, a),
    ensures
        stored_union(pls, a) == stored_union(pls, b),
{
    assert forall|f: Seq<char>| stored_union(pls, a).contains(f) == stored_union(pls, b).contains(f) by {
        if stored_union(pls, a).contains(f) {
            let i = choose|i: int|
                0 <= i < a.len() && files_of(or_empty(lookup(pls, a[i]))).contains(f);
            let j = choose|j: int| 0 <= j < b.len() && b[j] == #[trigger] a[i];
            assert(files_of(or_empty(lookup(pls, b[j]))).contains(f));
        }
        if stored_union(pls, b).contains(f) {
            let i = choose|i: int|
                0 <= i < b.len() && files_of(or_empty(lookup(pls, b[i]))).contains(f);
            let j = choose|j: int| 0 <= j < a.len() && a[j] == #[trigger] b[i];
            assert(files_of(or_empty(lookup(pls, a[j]))).contains(f));
        }
    }
    assert(stored_union(pls, a) =~= stored_union(pls, b));
}

proof fn lemma_union_stored(
    fa: Seq<FetchView>,
    pls: Seq<(Seq<char>, Seq<SongView>)>,
    names: Seq<Seq<char>>,
)
    requires
        fa.len() == names.len(),
        forall|i: int| 0 <= i < fa.len() ==> agrees(#[trigger] fa[i], lookup(pls, names[i])),
        first_fatal(fa) is None,
    ensures
        union_files(fa) == stored_union(pls, names),
{
    lemma_first_fatal_none(fa);
    assert forall|i: int| 0 <= i < fa.len() implies #[trigger] fetched(fa[i]) == or_empty(
        lookup(pls, names[i]),
    ) by {
        assert(agrees(fa[i], lookup(pls, names[i])));
        assert(!(fa[i] is Err && fa[i] != Err::<Seq<SongView>, JukeError>(JukeError::NotFound)));
    }
    assert forall|f: Seq<char>| union_files(fa).contains(f) == stored_union(pls, names).contains(f) by {
        if union_files(fa).contains(f) {
            let i = choose|i: int| 0 <= i < fa.len() && files_of(fetched(fa[i])).contains(f);
            assert(fetched(fa[i]) == or_empty(lookup(pls, names[i])));
        }
        if stored_union(pls, names).contains(f) {
            let i = choose|i: int|
                0 <= i < names.len() && files_of(or_empty(lookup(pls, names[i]))).contains(f);
            assert(fetched(fa[i]) == or_empty(lookup(pls, names[i])));
        }
    }
    assert(union_files(fa) =~= stored_union(pls, names));
}

/// Fetches playlist `name` for each name of `names`, in order.
fn fetch_all<D: Daemon>(names: &Vec<String>, client: &mut D) -> (r: Vec<
    Result<Vec<Song>, JukeError>,
>)
    ensures
        r@.len() == names@.len(),
        unchanged(*old(client), *final(client)),
        forall|i: int|
            0 <= i < r@.len() ==> agrees(
                #[trigger] fetch_views(r@)[i],
                lookup(old(client).stored(), names@[i]@),
            ),
{
    let mut out: Vec<Result<Vec<Song>, JukeError>> = Vec::new();
    let mut i: usize = 0;
    while i < names.len()
        invariant
            i <= names.len(),
            out@.len() == i,
            unchanged(*old(client), *client),
            forall|j: int|
                0 <= j < i ==> agrees(
                    #[trigger] fetch_views(out@)[j],
                    lookup(old(client).stored(), names@[j]@),
                ),
        decreases names.len() - i,
    {
        let fetched = client.playlist(names[i].as_str());
        let ghost o = out@;
        out.push(fetched);
        proof {
            assert(fetch_views(out@) =~= fetch_views(o).push(result_view(fetched)));
        }
        i = i + 1;
    }
    out
}

impl TagsData {
    /// The allowed set: the songs of the playlists named in `any`, less those
    /// of the playlists named in `not`, fetched through `client`, one song per
    /// path. A playlist that does not exist adds or removes nothing; any other
    /// failure of a fetch is returned. Nothing of the daemon changes.
    pub fn get_allowed_songs<D: Daemon>(&self, client: &mut D) -> (r: Result<Vec<Song>, JukeError>)
        ensures
            unchanged(*old(client), *final(client)),
            r matches Ok(v) ==> files_of(views(v@)) == allowed_in(
                old(client).stored(),
                strs(self.any@),
                strs(self.not@),
            ) && unique_files(views(v@)),
            r is Err ==> r != Err::<Vec<Song>, JukeError>(JukeError::NotFound),
            normalized(strs(self.any@)).len() == 0 && normalized(strs(self.not@)).len() == 0 ==> (
            r matches Ok(v) && v@.len() == 0),
    {
        let (any_tags, not_tags) = self.tags_to_strings();
        let any_fetched = fetch_all(&any_tags, client);
        let not_fetched = fetch_all(&not_tags, client);
        let r = allowed_from(&any_fetched, &not_fetched);
        proof {
            let fa = fetch_views(any_fetched@);
            let fnn = fetch_views(not_fetched@);
            let pls = old(client).stored();
            lemma_first_fatal_append(fa, fnn);
            lemma_first_fatal_not_found(fa + fnn);
            assert forall|i: int| 0 <= i < fa.len() implies agrees(
                #[trigger] fa[i],
                lookup(pls, strs(any_tags@)[i]),
            ) by {
                assert(strs(any_tags@)[i] == any_tags@[i]@);
            }
            assert forall|i: int| 0 <= i < fnn.len() implies agrees(
                #[trigger] fnn[i],
                lookup(pls, strs(not_tags@)[i]),
            ) by {
                assert(strs(not_tags@)[i] == not_tags@[i]@);
            }
            if first_fatal(fa + fnn) is None {
                lemma_union_stored(fa, pls, strs(any_tags@));
                lemma_union_stored(fnn, pls, strs(not_tags@));
            }
            if fa.len() == 0 && fnn.len() == 0 {
                assert(fa + fnn =~= Seq::<FetchView>::empty());
                assert(first_fatal(fa + fnn) is None);
                if r is Ok {
                    let v = r->Ok_0;
                    if v@.len() > 0 {
                        assert(views(v@)[0] == v@[0]@);
                        assert(files_of(views(v@)).contains(v@[0]@.file));
                        assert(!union_files(fa).contains(v@[0]@.file));
                    }
                }
            }
        }
        r
    }
}

proof fn lemma_first_fatal_none(rs: Seq<FetchView>)
    ensures
        first_fatal(rs) is None <==> forall|i: int|
            0 <= i < rs.len() ==> !(#[trigger] rs[i] is Err && rs[i] != Err::<
                Seq<SongView>,
                JukeError,
            >(JukeError::NotFound)),
    decreases rs.len(),
{
    if rs.len() > 0 {
        lemma_first_fatal_none(rs.drop_first());
        if first_fatal(rs) is None {
            assert forall|i: int| 0 <= i < rs.len() implies !(#[trigger] rs[i] is Err && rs[i]
                != Err::<Seq<SongView>, JukeError>(JukeError::NotFound)) by {
                if i > 0 {
                    assert(rs[i] == rs.drop_first()[i - 1]);
                }
            }
        } else {
            if !(rs[0] is Err && rs[0] != Err::<Seq<SongView>, JukeError>(JukeError::NotFound)) {
                let i = choose|i: int|
                    0 <= i < rs.drop_first().len() && (#[trigger] rs.drop_first()[i] is Err
                        && rs.drop_first()[i] != Err::<Seq<SongView>, JukeError>(
                        JukeError::NotFound,
                    ));
                assert(rs[i + 1] == rs.drop_first()[i]);
            }
        }
    }
}

/// Every fetch of `a` also occurs in `b`.
pub open spec fn fetches_within(a: Seq<FetchView>, b: Seq<FetchView>) -> bool {
    forall|i: int| 0 <= i < a.len() ==> exists|j: int| 0 <= j < b.len() && b[j] == #[trigger] a[i]
}

proof fn lemma_union_within(a: Seq<FetchView>, b: Seq<FetchView>)
    requires
        fetches_within(a, b),
    ensures
        union_files(a).subset_of(union_files(b)),
{
    assert forall|f: Seq<char>| union_files(a).contains(f) implies union_files(b).contains(f) by {
        let i = choose|i: int| 0 <= i < a.len() && files_of(fetched(a[i])).contains(f);
        let j = choose|j: int| 0 <= j < b.len() && b[j] == #[trigger] a[i];
        assert(files_of(fetched(b[j])).contains(f));
    }
}

proof fn lemma_fatal_within(a: Seq<FetchView>, b: Seq<FetchView>)
    requires
        fetches_within(a, b),
        first_fatal(b) is None,
    ensures
        first_fatal(a) is None,
{
    lemma_first_fatal_none(a);
    lemma_first_fatal_none(b);
    assert forall|i: int| 0 <= i < a.len() implies !(#[trigger] a[i] is Err && a[i] != Err::<
        Seq<SongView>,
        JukeError,
    >(JukeError::NotFound)) by {
        let j = choose|j: int| 0 <= j < b.len() && b[j] == #[trigger] a[i];
        assert(!(b[j] is Err && b[j] != Err::<Seq<SongView>, JukeError>(JukeError::NotFound)));
    }
}

/// Computing the allowed set twice over the same tag playlists gives the same
/// set of songs, whatever the order or repetition of the fetches: both fail or
/// both succeed, and on success they hold the same paths.
pub proof fn lemma_filter_purity(
    r1: Result<Seq<SongView>, JukeError>,
    any1: Seq<FetchView>,
    not1: Seq<FetchView>,
    r2: Result<Seq<SongView>, JukeError>,
    any2: Seq<FetchView>,
    not2: Seq<FetchView>,
)
    requires
        is_allowed_result(r1, any1, not1),
        is_allowed_result(r2, any2, not2),
        fetches_within(any1, any2),
        fetches_within(any2, any1),
        fetches_within(not1, not2),
        fetches_within(not2, not1),
    ensures
        r1 is Ok <==> r2 is Ok,
        r1 is Ok ==> files_of(r1->Ok_0) == files_of(r2->Ok_0),
{
    lemma_first_fatal_append(any1, not1);
    lemma_first_fatal_append(any2, not2);
    if first_fatal(any1 + not1) is None {
        lemma_fatal_within(any2, any1);
        lemma_fatal_within(not2, not1);
    }
    if first_fatal(any2 + not2) is None {
        lemma_fatal_within(any1, any2);
        lemma_fatal_within(not1, not2);
    }
    lemma_union_within(any1, any2);
    lemma_union_within(any2, any1);
    lemma_union_within(not1, not2);
    lemma_union_within(not2, not1);
    assert(union_files(any1) =~= union_files(any2));
    assert(union_files(not1) =~= union_files(not2));
}

/// The filter a command line gives: `tags` and `not_tags` each split on commas,
/// every piece trimmed, empty pieces kept.
pub fn parse_tags_data_from_argv(tags: &str, not_tags: &str) -> (r: TagsData)
    ensures
        strs(r.any@) == pieces_of(tags@, ',', true),
        strs(r.not@) == pieces_of(not_tags@, ',', true),
{
    TagsData { any: split_trimmed(tags, ',', true), not: split_trimmed(not_tags, ',', true) }
}

} // verus!
