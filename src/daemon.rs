//! The music daemon as the engine sees it: the operations it calls, the
//! errors they report, and an in-memory daemon that keeps playlists, a play
//! queue and a song library in plain vectors.
use vstd::prelude::*;

use crate::song::{album_name, copy_songs, of_album, views, Song, SongView};
use crate::text::same_text;

verus! {

/// What can go wrong in the engine.
#[derive(Clone, Copy, Debug, PartialEq, Eq, Structural)]
pub enum JukeError {
    /// The connection to the daemon failed.
    Transport,
    /// A playlist, tag or queue position does not exist.
    NotFound,
    /// Every connection of the pool is lent out.
    Exhausted,
}

/// One connection to a music daemon. Each call may fail; none retries.
///
/// The contracts describe the daemon as this connection sees it while no
/// other client changes it between two calls: the play queue (`live`), the
/// stored playlists (`stored`, looked up by name with `lookup`) and what an
/// album search finds (`album_songs`). Reads change none of them. The
/// in-memory daemon below defines the three views and is proved to keep
/// these contracts. The views' bodies are closed placeholders, there only so
/// that a connection to a real server, written outside the verified code,
/// can implement the trait; verified code never sees them, so for any other
/// daemon the views stay abstract and that daemon is expected, not proved,
/// to behave as stated.
pub trait Daemon: Sized {
    /// The play queue; its first song is the one playing.
    closed spec fn live(&self) -> Seq<SongView> {
        Seq::empty()
    }

    /// The stored playlists, by name.
    closed spec fn stored(&self) -> Seq<(Seq<char>, Seq<SongView>)> {
        Seq::empty()
    }

    /// The songs an album search for `album` finds.
    closed spec fn album_songs(&self, album: Seq<char>) -> Seq<SongView> {
        Seq::empty()
    }

    /// Opens a connection to the daemon at `host`:`port`, with consume mode on.
    fn connect(host: &str, port: u16) -> Result<Self, JukeError>;

    /// The songs of stored playlist `name`; `NotFound` when there is none.
    fn playlist(&mut self, name: &str) -> (r: Result<Vec<Song>, JukeError>)
        ensures
            final(self).live() == old(self).live(),
            final(self).stored() == old(self).stored(),
            forall|x: Seq<char>| #[trigger] final(self).album_songs(x) == old(self).album_songs(x),
            r matches Ok(v) ==> lookup(old(self).stored(), name@) == Some(views(v@)),
            r == Err::<Vec<Song>, JukeError>(JukeError::NotFound) ==> lookup(
                old(self).stored(),
                name@,
            ) is None;

    /// The songs of the library whose album is `album`.
    fn search_album(&mut self, album: &str) -> (r: Result<Vec<Song>, JukeError>)
        ensures
            final(self).live() == old(self).live(),
            final(self).stored() == old(self).stored(),
            forall|x: Seq<char>| #[trigger] final(self).album_songs(x) == old(self).album_songs(x),
            r matches Ok(v) ==> views(v@) == old(self).album_songs(album@);

    /// The play queue.
    fn queue(&mut self) -> (r: Result<Vec<Song>, JukeError>)
        ensures
            final(self).live() == old(self).live(),
            final(self).stored() == old(self).stored(),
            forall|x: Seq<char>| #[trigger] final(self).album_songs(x) == old(self).album_songs(x),
            r matches Ok(v) ==> views(v@) == old(self).live();

    /// Appends a song to the play queue.
    fn push(&mut self, song: &Song) -> (r: Result<(), JukeError>)
        ensures
            final(self).stored() == old(self).stored(),
            r is Ok ==> final(self).live() == old(self).live().push(song@),
            r is Err ==> final(self).live() == old(self).live();

    /// Removes the song at position `pos` of the play queue.
    fn delete(&mut self, pos: u32) -> (r: Result<(), JukeError>)
        ensures
            final(self).stored() == old(self).stored(),
            r is Ok ==> pos < old(self).live().len() && final(self).live() == old(
                self,
            ).live().remove(pos as int),
            r is Err ==> final(self).live() == old(self).live();

    /// Starts playback if it is stopped.
    fn play(&mut self) -> (r: Result<(), JukeError>)
        ensures
            final(self).live() == old(self).live(),
            final(self).stored() == old(self).stored(),
            forall|x: Seq<char>| #[trigger] final(self).album_songs(x) == old(self).album_songs(x);

    /// Checks that the connection is alive.
    fn ping(&mut self) -> (r: Result<(), JukeError>)
        ensures
            final(self).live() == old(self).live(),
            final(self).stored() == old(self).stored(),
            forall|x: Seq<char>| #[trigger] final(self).album_songs(x) == old(self).album_songs(x);

    /// Reopens the connection unless a ping shows it alive.
    fn reconnect(&mut self) -> (r: Result<(), JukeError>)
        ensures
            final(self).live() == old(self).live(),
            final(self).stored() == old(self).stored(),
            forall|x: Seq<char>| #[trigger] final(self).album_songs(x) == old(self).album_songs(x);

    /// Appends a song to stored playlist `name`, made if it does not exist.
    fn pl_push(&mut self, name: &str, song: &Song) -> (r: Result<(), JukeError>)
        ensures
            final(self).live() == old(self).live(),
            r is Ok ==> lookup(final(self).stored(), name@) == Some(
                or_empty(lookup(old(self).stored(), name@)).push(song@),
            ) && others_kept(old(self).stored(), final(self).stored(), name@),
            r is Err ==> final(self).stored() == old(self).stored();

    /// Removes the song at position `pos` of stored playlist `name`.
    fn pl_delete(&mut self, name: &str, pos: u32) -> (r: Result<(), JukeError>)
        ensures
            final(self).live() == old(self).live(),
            r is Ok ==> pos < or_empty(lookup(old(self).stored(), name@)).len() && lookup(
                final(self).stored(),
                name@,
            ) == Some(or_empty(lookup(old(self).stored(), name@)).remove(pos as int))
                && others_kept(old(self).stored(), final(self).stored(), name@),
            r is Err ==> final(self).stored() == old(self).stored();
}

/// Nothing the engine can see of the daemon changed from `a` to `b`.
pub open spec fn unchanged<D: Daemon>(a: D, b: D) -> bool {
    &&& b.live() == a.live()
    &&& b.stored() == a.stored()
    &&& forall|x: Seq<char>| #[trigger] b.album_songs(x) == a.album_songs(x)
}

/// The songs of a playlist, none if it does not exist.
pub open spec fn or_empty(s: Option<Seq<SongView>>) -> Seq<SongView> {
    match s {
        Some(v) => v,
        None => Seq::empty(),
    }
}

/// Every playlist but `name` reads the same in `a` and `b`.
pub open spec fn others_kept(
    a: Seq<(Seq<char>, Seq<SongView>)>,
    b: Seq<(Seq<char>, Seq<SongView>)>,
    name: Seq<char>,
) -> bool {
    forall|n: Seq<char>| n != name ==> #[trigger] lookup(b, n) == lookup(a, n)
}

/// The songs of the first playlist named `name`, if there is one.
pub open spec fn lookup(pls: Seq<(Seq<char>, Seq<SongView>)>, name: Seq<char>) -> Option<
    Seq<SongView>,
>
    decreases pls.len(),
{
    if pls.len() == 0 {
        None
    } else if pls[0].0 == name {
        Some(pls[0].1)
    } else {
        lookup(pls.drop_first(), name)
    }
}

proof fn lemma_lookup_first(pls: Seq<(Seq<char>, Seq<SongView>)>, name: Seq<char>, k: int)
    requires
        0 <= k <= pls.len(),
        forall|j: int| 0 <= j < k ==> #[trigger] pls[j].0 != name,
        k < pls.len() ==> pls[k].0 == name,
    ensures
        lookup(pls, name) == if k < pls.len() {
            Some(pls[k].1)
        } else {
            None::<Seq<SongView>>
        },
    decreases k,
{
    if k > 0 {
        let t = pls.drop_first();
        assert forall|j: int| 0 <= j < k - 1 implies #[trigger] t[j].0 != name by {
            assert(t[j] == pls[j + 1]);
        }
        lemma_lookup_first(t, name, k - 1);
    }
}

proof fn lemma_lookup_update(
    pls: Seq<(Seq<char>, Seq<SongView>)>,
    k: int,
    entry: (Seq<char>, Seq<SongView>),
    n: Seq<char>,
)
    requires
        0 <= k < pls.len(),
        pls[k].0 == entry.0,
        n != entry.0,
    ensures
        lookup(pls.update(k, entry), n) == lookup(pls, n),
    decreases pls.len(),
{
    if k > 0 && pls[0].0 != n {
        assert(pls.update(k, entry).drop_first() =~= pls.drop_first().update(k - 1, entry));
        lemma_lookup_update(pls.drop_first(), k - 1, entry, n);
    } else if k == 0 {
        assert(pls.update(k, entry).drop_first() =~= pls.drop_first());
    }
}

proof fn lemma_lookup_push(
    pls: Seq<(Seq<char>, Seq<SongView>)>,
    entry: (Seq<char>, Seq<SongView>),
    n: Seq<char>,
)
    requires
        n != entry.0,
    ensures
        lookup(pls.push(entry), n) == lookup(pls, n),
    decreases pls.len(),
{
    if pls.len() > 0 && pls[0].0 != n {
        assert(pls.push(entry).drop_first() =~= pls.drop_first().push(entry));
        lemma_lookup_push(pls.drop_first(), entry, n);
    } else if pls.len() == 0 {
        assert(pls.push(entry).drop_first() =~= pls);
    }
}

/// What the in-memory daemon holds.
pub struct MockView {
    pub playlists: Seq<(Seq<char>, Seq<SongView>)>,
    pub queue: Seq<SongView>,
    pub library: Seq<SongView>,
    pub consuming: bool,
    pub connected: bool,
}

/// A daemon kept in memory: named playlists, a play queue, a library to
/// search, and a switch that simulates losing the connection.
pub struct MockMpd {
    playlists: Vec<(String, Vec<Song>)>,
    queue: Vec<Song>,
    library: Vec<Song>,
    is_consuming: bool,
    connected: bool,
}

impl View for MockMpd {
    type V = MockView;

    closed spec fn view(&self) -> MockView {
        MockView {
            playlists: self.playlists@.map_values(|p: (String, Vec<Song>)| (p.0@, views(p.1@))),
            queue: views(self.queue@),
            library: views(self.library@),
            consuming: self.is_consuming,
            connected: self.connected,
        }
    }
}

impl MockMpd {
    /// An empty, connected daemon.
    pub fn new() -> (r: MockMpd)
        ensures
            r@.playlists.len() == 0,
            r@.queue.len() == 0,
            r@.library.len() == 0,
            !r@.consuming,
            r@.connected,
    {
        let r = MockMpd {
            playlists: Vec::new(),
            queue: Vec::new(),
            library: Vec::new(),
            is_consuming: false,
            connected: true,
        };
        assert(r@.playlists =~= Seq::empty());
        r
    }

    fn position(&self, name: &str) -> (r: Option<usize>)
        ensures
            r matches Some(i) ==> i < self@.playlists.len() && self@.playlists[i as int].0
                == name@ && forall|j: int| 0 <= j < i ==> #[trigger] self@.playlists[j].0 != name@,
            r is None ==> forall|i: int|
                0 <= i < self@.playlists.len() ==> #[trigger] self@.playlists[i].0 != name@,
    {
        let mut i: usize = 0;
        while i < self.playlists.len()
            invariant
                i <= self.playlists.len(),
                self@.playlists.len() == self.playlists@.len(),
                forall|j: int| 0 <= j < i ==> #[trigger] self@.playlists[j].0 != name@,
            decreases self.playlists.len() - i,
        {
            assert(self@.playlists[i as int].0 == self.playlists@[i as int].0@);
            if same_text(self.playlists[i].0.as_str(), name) {
                return Some(i);
            }
            i = i + 1;
        }
        None
    }

    /// Stores playlist `name` with `songs`, replacing one of that name.
    pub fn add_playlist(&mut self, name: &str, songs: Vec<Song>)
        ensures
            lookup(final(self)@.playlists, name@) == Some(views(songs@)),
            forall|n: Seq<char>|
                n != name@ ==> lookup(final(self)@.playlists, n) == lookup(
                    old(self)@.playlists,
                    n,
                ),
            final(self)@.queue == old(self)@.queue,
            final(self)@.library == old(self)@.library,
            final(self)@.connected == old(self)@.connected,
            final(self)@.consuming == old(self)@.consuming,
    {
        let ghost old_pls = self@.playlists;
        let ghost entry = (name@, views(songs@));
        match self.position(name) {
            Some(i) => {
                self.playlists.set(i, (String::from_str(name), songs));
                proof {
                    let pls = self@.playlists;
                    assert(pls =~= old_pls.update(i as int, entry));
                    assert forall|j: int| 0 <= j < i implies #[trigger] pls[j].0 != name@ by {
                        assert(pls[j] == old_pls[j]);
                    }
                    lemma_lookup_first(pls, name@, i as int);
                    assert forall|n: Seq<char>| n != name@ implies lookup(pls, n) == lookup(
                        old_pls,
                        n,
                    ) by {
                        lemma_lookup_update(old_pls, i as int, entry, n);
                    }
                }
            },
            None => {
                self.playlists.push((String::from_str(name), songs));
                proof {
                    let pls = self@.playlists;
                    assert(pls =~= old_pls.push(entry));
                    assert forall|j: int| 0 <= j < old_pls.len() implies #[trigger] pls[j].0
                        != name@ by {
                        assert(pls[j] == old_pls[j]);
                    }
                    lemma_lookup_first(pls, name@, old_pls.len() as int);
                    assert forall|n: Seq<char>| n != name@ implies lookup(pls, n) == lookup(
                        old_pls,
                        n,
                    ) by {
                        lemma_lookup_push(old_pls, entry, n);
                    }
                }
            },
        }
    }

    /// Adds a song to the library that album searches look through.
    pub fn add_to_library(&mut self, song: Song)
        ensures
            final(self)@.library == old(self)@.library.push(song@),
            final(self)@.playlists == old(self)@.playlists,
            final(self)@.queue == old(self)@.queue,
            final(self)@.connected == old(self)@.connected,
            final(self)@.consuming == old(self)@.consuming,
    {
        let ghost before = self@;
        self.library.push(song);
        assert(self@.library =~= before.library.push(song@));
        assert(self@.playlists =~= before.playlists);
    }

    /// From now on every call but `playlist` fails with `Transport`.
    pub fn simulate_disconnect(&mut self)
        ensures
            final(self)@ == (MockView { connected: false, ..old(self)@ }),
    {
        self.connected = false;
    }

    /// Ends a simulated disconnection.
    pub fn simulate_reconnect(&mut self)
        ensures
            final(self)@ == (MockView { connected: true, ..old(self)@ }),
    {
        self.connected = true;
    }

    /// The songs of playlist `name`, or `NotFound`.
    pub fn playlist(&self, name: &str) -> (r: Result<Vec<Song>, JukeError>)
        ensures
            match lookup(self@.playlists, name@) {
                Some(songs) => r matches Ok(v) && views(v@) == songs,
                None => r == Err::<Vec<Song>, JukeError>(JukeError::NotFound),
            },
    {
        match self.position(name) {
            Some(i) => {
                proof {
                    lemma_lookup_first(self@.playlists, name@, i as int);
                }
                Ok(copy_songs(&self.playlists[i].1))
            },
            None => {
                proof {
                    lemma_lookup_first(self@.playlists, name@, self@.playlists.len() as int);
                }
                Err(JukeError::NotFound)
            },
        }
    }

    /// The play queue, or `Transport` while disconnected.
    pub fn queue(&self) -> (r: Result<Vec<Song>, JukeError>)
        ensures
            self@.connected ==> (r matches Ok(v) && views(v@) == self@.queue),
            !self@.connected ==> r == Err::<Vec<Song>, JukeError>(JukeError::Transport),
    {
        if !self.connected {
            return Err(JukeError::Transport);
        }
        Ok(copy_songs(&self.queue))
    }

    /// Appends a song to the play queue.
    pub fn push(&mut self, song: Song) -> (r: Result<(), JukeError>)
        ensures
            old(self)@.connected ==> r is Ok && final(self)@ == (MockView {
                queue: old(self)@.queue.push(song@),
                ..old(self)@
            }),
            !old(self)@.connected ==> r == Err::<(), JukeError>(JukeError::Transport)
                && final(self)@ == old(self)@,
    {
        if !self.connected {
            return Err(JukeError::Transport);
        }
        let ghost before = self@;
        self.queue.push(song);
        assert(self@.queue =~= before.queue.push(song@));
        Ok(())
    }

    /// Removes the song at `pos` of the play queue.
    pub fn delete(&mut self, pos: u32) -> (r: Result<(), JukeError>)
        ensures
            !old(self)@.connected ==> r == Err::<(), JukeError>(JukeError::Transport)
                && final(self)@ == old(self)@,
            old(self)@.connected && pos >= old(self)@.queue.len() ==> r == Err::<(), JukeError>(
                JukeError::NotFound,
            ) && final(self)@ == old(self)@,
            old(self)@.connected && pos < old(self)@.queue.len() ==> r is Ok && final(self)@ == (
            MockView { queue: old(self)@.queue.remove(pos as int), ..old(self)@ }),
    {
        if !self.connected {
            return Err(JukeError::Transport);
        }
        if pos as usize >= self.queue.len() {
            return Err(JukeError::NotFound);
        }
        let ghost before = self@;
        self.queue.remove(pos as usize);
        assert(self@.queue =~= before.queue.remove(pos as int));
        Ok(())
    }

    /// Turns consume mode on or off.
    pub fn consume(&mut self, state: bool) -> (r: Result<(), JukeError>)
        ensures
            old(self)@.connected ==> r is Ok && final(self)@ == (MockView {
                consuming: state,
                ..old(self)@
            }),
            !old(self)@.connected ==> r == Err::<(), JukeError>(JukeError::Transport)
                && final(self)@ == old(self)@,
    {
        if !self.connected {
            return Err(JukeError::Transport);
        }
        self.is_consuming = state;
        Ok(())
    }

    /// Starts playback; fails only while disconnected.
    pub fn play(&self) -> (r: Result<(), JukeError>)
        ensures
            r is Ok <==> self@.connected,
            r is Err ==> r == Err::<(), JukeError>(JukeError::Transport),
    {
        if !self.connected {
            return Err(JukeError::Transport);
        }
        Ok(())
    }

    /// Checks the connection; fails only while disconnected.
    pub fn ping(&self) -> (r: Result<(), JukeError>)
        ensures
            r is Ok <==> self@.connected,
            r is Err ==> r == Err::<(), JukeError>(JukeError::Transport),
    {
        if !self.connected {
            return Err(JukeError::Transport);
        }
        Ok(())
    }

    /// Appends a song to playlist `name`, which is made if it does not exist.
    pub fn pl_push(&mut self, name: &str, song: Song) -> (r: Result<(), JukeError>)
        ensures
            !old(self)@.connected ==> r == Err::<(), JukeError>(JukeError::Transport)
                && final(self)@ == old(self)@,
            old(self)@.connected ==> r is Ok && lookup(final(self)@.playlists, name@) == Some(
                match lookup(old(self)@.playlists, name@) {
                    Some(s) => s,
                    None => Seq::<SongView>::empty(),
                }.push(song@),
            ) && forall|n: Seq<char>|
                n != name@ ==> lookup(final(self)@.playlists, n) == lookup(
                    old(self)@.playlists,
                    n,
                ),
            final(self)@.queue == old(self)@.queue,
            final(self)@.library == old(self)@.library,
    {
        if !self.connected {
            return Err(JukeError::Transport);
        }
        let mut songs = match MockMpd::playlist(&*self, name) {
            Ok(v) => v,
            Err(_) => Vec::new(),
        };
        let ghost before = views(songs@);
        songs.push(song);
        assert(views(songs@) =~= before.push(song@));
        self.add_playlist(name, songs);
        Ok(())
    }

    /// Removes the song at `pos` of playlist `name`.
    pub fn pl_delete(&mut self, name: &str, pos: u32) -> (r: Result<(), JukeError>)
        ensures
            !old(self)@.connected ==> r == Err::<(), JukeError>(JukeError::Transport)
                && final(self)@ == old(self)@,
            old(self)@.connected ==> match lookup(old(self)@.playlists, name@) {
                Some(s) => if pos < s.len() {
                    r is Ok && lookup(final(self)@.playlists, name@) == Some(s.remove(pos as int))
                        && forall|n: Seq<char>|
                        n != name@ ==> lookup(final(self)@.playlists, n) == lookup(
                            old(self)@.playlists,
                            n,
                        )
                } else {
                    r == Err::<(), JukeError>(JukeError::NotFound) && final(self)@ == old(self)@
                },
                None => r == Err::<(), JukeError>(JukeError::NotFound) && final(self)@ == old(
                    self,
                )@,
            },
            final(self)@.queue == old(self)@.queue,
            final(self)@.library == old(self)@.library,
    {
        if !self.connected {
            return Err(JukeError::Transport);
        }
        match MockMpd::playlist(&*self, name) {
            Ok(songs) => {
                if pos as usize >= songs.len() {
                    return Err(JukeError::NotFound);
                }
                let mut songs = songs;
                let ghost before = views(songs@);
                songs.remove(pos as usize);
                assert(views(songs@) =~= before.remove(pos as int));
                self.add_playlist(name, songs);
                Ok(())
            },
            Err(e) => Err(e),
        }
    }

    /// The songs of the library whose album is `album`, in library order.
    pub fn search_album(&self, album: &str) -> (r: Result<Vec<Song>, JukeError>)
        ensures
            self@.connected ==> (r matches Ok(v) && views(v@) == of_album(self@.library, album@)),
            !self@.connected ==> r == Err::<Vec<Song>, JukeError>(JukeError::Transport),
    {
        if !self.connected {
            return Err(JukeError::Transport);
        }
        let mut out: Vec<Song> = Vec::new();
        let mut i: usize = 0;
        while i < self.library.len()
            invariant
                i <= self.library.len(),
                self@.library == views(self.library@),
                views(out@) == of_album(self@.library.subrange(0, i as int), album@),
            decreases self.library.len() - i,
        {
            let ghost pre = self@.library.subrange(0, i + 1);
            assert(pre.drop_last() =~= self@.library.subrange(0, i as int));
            assert(pre.last() == self.library@[i as int]@);
            let a = album_name(&self.library[i]);
            if same_text(a.as_str(), album) {
                let s = self.library[i].duplicate();
                let ghost o = views(out@);
                out.push(s);
                assert(views(out@) =~= o.push(s@));
            }
            i = i + 1;
        }
        assert(self@.library.subrange(0, i as int) =~= self@.library);
        Ok(out)
    }
}

impl Daemon for MockMpd {
    open spec fn live(&self) -> Seq<SongView> {
        self@.queue
    }

    open spec fn stored(&self) -> Seq<(Seq<char>, Seq<SongView>)> {
        self@.playlists
    }

    open spec fn album_songs(&self, album: Seq<char>) -> Seq<SongView> {
        of_album(self@.library, album)
    }

    /// A new, empty in-memory daemon: nothing is shared between two of them.
    fn connect(host: &str, port: u16) -> Result<MockMpd, JukeError> {
        Ok(MockMpd::new())
    }

    fn playlist(&mut self, name: &str) -> Result<Vec<Song>, JukeError> {
        {
            MockMpd::playlist(self, name)
        }
    }

    fn search_album(&mut self, album: &str) -> Result<Vec<Song>, JukeError> {
        MockMpd::search_album(self, album)
    }

    fn queue(&mut self) -> Result<Vec<Song>, JukeError> {
        MockMpd::queue(self)
    }

    fn push(&mut self, song: &Song) -> Result<(), JukeError> {
        MockMpd::push(self, song.duplicate())
    }

    fn delete(&mut self, pos: u32) -> Result<(), JukeError> {
        MockMpd::delete(self, pos)
    }

    fn play(&mut self) -> Result<(), JukeError> {
        MockMpd::play(self)
    }

    fn ping(&mut self) -> Result<(), JukeError> {
        MockMpd::ping(self)
    }

    fn reconnect(&mut self) -> Result<(), JukeError> {
        MockMpd::ping(self)
    }

    fn pl_push(&mut self, name: &str, song: &Song) -> Result<(), JukeError> {
        {
            MockMpd::pl_push(self, name, song.duplicate())
        }
    }

    fn pl_delete(&mut self, name: &str, pos: u32) -> Result<(), JukeError> {
        {
            MockMpd::pl_delete(self, name, pos)
        }
    }
}

} // verus!
