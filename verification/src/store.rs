use vstd::prelude::*;
use crate::encoding::same_text;
use crate::error::Error;
use crate::models::{Playlist, PlaylistOffset, PlaylistView, Track, TrackView};

verus! {

/// The local storage: tracks, registered playlists and one offset row per
/// playlist.
pub struct Store {
    tracks: Vec<Track>,
    playlists: Vec<Playlist>,
    offsets: Vec<PlaylistOffset>,
}

/// Mathematical value of a [`Store`]: its rows in the order they were
/// inserted.
pub struct StoreView {
    pub tracks: Seq<TrackView>,
    pub playlists: Seq<PlaylistView>,
    pub offsets: Seq<PlaylistOffset>,
}

impl StoreView {
    /// Identifiers are positive and grow with the position of the row, no
    /// remote identifier occurs twice, no playlist has two offset rows, and
    /// no offset is negative.
    pub open spec fn wf(self) -> bool {
        &&& forall|i: int| 0 <= i < self.tracks.len() ==> 0 < #[trigger] self.tracks[i].id <= i32::MAX
        &&& forall|i: int, j: int|
            0 <= i < j < self.tracks.len() ==> #[trigger] self.tracks[i].id < #[trigger] self.tracks[j].id
        &&& forall|i: int, j: int|
            0 <= i < j < self.tracks.len() ==> #[trigger] self.tracks[i].spotify_id
                != #[trigger] self.tracks[j].spotify_id
        &&& forall|i: int|
            0 <= i < self.playlists.len() ==> 0 < #[trigger] self.playlists[i].id <= i32::MAX
        &&& forall|i: int, j: int|
            0 <= i < j < self.playlists.len() ==> #[trigger] self.playlists[i].id
                < #[trigger] self.playlists[j].id
        &&& forall|i: int, j: int|
            0 <= i < j < self.playlists.len() ==> #[trigger] self.playlists[i].spotify_id
                != #[trigger] self.playlists[j].spotify_id
        &&& forall|i: int| 0 <= i < self.offsets.len() ==> 0 < #[trigger] self.offsets[i].id
        &&& forall|i: int| 0 <= i < self.offsets.len() ==> 0 <= #[trigger] self.offsets[i].offset
        &&& forall|i: int, j: int|
            0 <= i < j < self.offsets.len() ==> #[trigger] self.offsets[i].id
                < #[trigger] self.offsets[j].id
        &&& forall|i: int, j: int|
            0 <= i < j < self.offsets.len() ==> #[trigger] self.offsets[i].playlist_id
                != #[trigger] self.offsets[j].playlist_id
    }

    /// Whether a track with this remote identifier is stored, under any
    /// playlist.
    pub open spec fn has_track(self, spotify_id: Seq<char>) -> bool {
        exists|i: int| 0 <= i < self.tracks.len() && #[trigger] self.tracks[i].spotify_id == spotify_id
    }

    /// The identifier that the next track gets.
    pub open spec fn next_track_id(self) -> int {
        if self.tracks.len() == 0 {
            1
        } else {
            self.tracks.last().id + 1
        }
    }

    /// Why the store refuses a track with this remote identifier, if it
    /// does: it is a duplicate, or no identifier is left.
    pub open spec fn track_refusal(self, spotify_id: Seq<char>) -> Option<Error> {
        if self.has_track(spotify_id) {
            Some(Error::DuplicateTrack)
        } else if self.next_track_id() > i32::MAX {
            Some(Error::Storage)
        } else {
            None
        }
    }

    /// The store after an attempt to insert a track: one more row, not yet
    /// posted, unless the track is refused.
    pub open spec fn with_track(
        self,
        spotify_id: Seq<char>,
        playlist_id: int,
        name: Seq<char>,
        url: Seq<char>,
    ) -> StoreView {
        if self.track_refusal(spotify_id) is Some {
            self
        } else {
            StoreView {
                tracks: self.tracks.push(
                    TrackView {
                        id: self.next_track_id(),
                        spotify_id,
                        playlist_id,
                        name,
                        url,
                        posted: 0,
                    },
                ),
                ..self
            }
        }
    }

    /// Whether a playlist with this remote identifier is registered.
    pub open spec fn has_playlist(self, spotify_id: Seq<char>) -> bool {
        exists|i: int|
            0 <= i < self.playlists.len() && #[trigger] self.playlists[i].spotify_id == spotify_id
    }

    /// The identifier that the next playlist gets.
    pub open spec fn next_playlist_id(self) -> int {
        if self.playlists.len() == 0 {
            1
        } else {
            self.playlists.last().id + 1
        }
    }

    /// The identifier that the next offset row gets.
    pub open spec fn next_offset_id(self) -> int {
        if self.offsets.len() == 0 {
            1
        } else {
            self.offsets.last().id + 1
        }
    }

    /// Whether the playlist has an offset row.
    pub open spec fn has_offset(self, playlist_id: int) -> bool {
        exists|i: int|
            0 <= i < self.offsets.len() && #[trigger] self.offsets[i].playlist_id == playlist_id
    }

    /// The position of the playlist's offset row.
    pub open spec fn offset_row(self, playlist_id: int) -> int {
        choose|i: int|
            0 <= i < self.offsets.len() && #[trigger] self.offsets[i].playlist_id == playlist_id
    }

    /// The playlist's offset, where it has a row.
    pub open spec fn offset_of(self, playlist_id: int) -> Option<int> {
        if self.has_offset(playlist_id) {
            Some(self.offsets[self.offset_row(playlist_id)].offset as int)
        } else {
            None
        }
    }

    /// The store with the playlist's offset replaced.
    pub open spec fn with_offset(self, playlist_id: int, offset: int) -> StoreView {
        let k = self.offset_row(playlist_id);
        StoreView {
            offsets: self.offsets.update(
                k,
                PlaylistOffset { offset: #[verifier::truncate] (offset as i32), ..self.offsets[k] },
            ),
            ..self
        }
    }

    /// Whether a track has this identifier.
    pub open spec fn has_track_id(self, id: int) -> bool {
        exists|i: int| 0 <= i < self.tracks.len() && #[trigger] self.tracks[i].id == id
    }

    /// The position of the track with this identifier.
    pub open spec fn track_row(self, id: int) -> int {
        choose|i: int| 0 <= i < self.tracks.len() && #[trigger] self.tracks[i].id == id
    }

    /// The store without the track that has this identifier.
    pub open spec fn without_track(self, id: int) -> StoreView {
        if self.has_track_id(id) {
            StoreView { tracks: self.tracks.remove(self.track_row(id)), ..self }
        } else {
            self
        }
    }

    /// The store with the track that has this identifier marked as posted.
    pub open spec fn with_posted(self, id: int) -> StoreView {
        if self.has_track_id(id) {
            let k = self.track_row(id);
            StoreView {
                tracks: self.tracks.update(k, TrackView { posted: 1, ..self.tracks[k] }),
                ..self
            }
        } else {
            self
        }
    }

    /// Whether the store refuses a playlist with this remote identifier:
    /// it is registered already, or no identifier is left.
    pub open spec fn refuses_playlist(self, spotify_id: Seq<char>) -> bool {
        self.has_playlist(spotify_id) || self.next_playlist_id() > i32::MAX
    }

    /// The store with one more playlist.
    pub open spec fn with_playlist(self, name: Seq<char>, spotify_id: Seq<char>) -> StoreView {
        StoreView {
            playlists: self.playlists.push(
                PlaylistView { id: self.next_playlist_id(), spotify_id, name },
            ),
            ..self
        }
    }

    /// Whether the store refuses a first offset row for the playlist: it
    /// has one already, the offset is negative, or no identifier is left.
    pub open spec fn refuses_offset(self, playlist_id: int, offset: int) -> bool {
        self.has_offset(playlist_id) || offset < 0 || self.next_offset_id() > i32::MAX
    }

    /// The store with one more offset row.
    pub open spec fn with_new_offset(self, playlist_id: i32, offset: i32) -> StoreView {
        StoreView {
            offsets: self.offsets.push(
                PlaylistOffset { id: self.next_offset_id() as i32, offset, playlist_id },
            ),
            ..self
        }
    }

    /// Whether the playlist's offset can become `offset`: the playlist has
    /// a row, and the offset does not go back.
    pub open spec fn accepts_offset(self, playlist_id: int, offset: int) -> bool {
        self.has_offset(playlist_id) && self.offset_of(playlist_id)->0 <= offset
    }

    /// The store with only its first `n` tracks.
    pub open spec fn upto(self, n: int) -> StoreView {
        StoreView { tracks: self.tracks.take(n), ..self }
    }

    /// The tracks that have not been posted yet, in the order of the store.
    pub open spec fn unposted(self) -> Seq<TrackView> {
        self.tracks.filter(|t: TrackView| t.posted == 0)
    }
}

impl View for Store {
    type V = StoreView;

    closed spec fn view(&self) -> StoreView {
        StoreView {
            tracks: self.tracks@.map_values(|t: Track| t@),
            playlists: self.playlists@.map_values(|p: Playlist| p@),
            offsets: self.offsets@,
        }
    }
}

impl Store {
    /// The invariant of the store, stated over its value.
    pub open spec fn wf(&self) -> bool {
        self@.wf()
    }

    /// A store without rows.
    pub fn new() -> (r: Store)
        ensures
            r.wf(),
            r@.tracks.len() == 0,
            r@.playlists.len() == 0,
            r@.offsets.len() == 0,
    {
        Store { tracks: Vec::new(), playlists: Vec::new(), offsets: Vec::new() }
    }

    /// Every track in the store, posted or not, in the order of insertion.
    pub fn all_tracks(&self) -> (r: Vec<Track>)
        ensures
            r@.map_values(|t: Track| t@) == self@.tracks,
    {
        let mut out: Vec<Track> = Vec::new();
        let mut i: usize = 0;
        while i < self.tracks.len()
            invariant
                i <= self.tracks.len(),
                out@.len() == i,
                forall|j: int| 0 <= j < i ==> out@[j]@ == self.tracks@[j]@,
            decreases self.tracks.len() - i,
        {
            out.push(copy_track(&self.tracks[i]));
            i += 1;
        }
        assert(out@.map_values(|t: Track| t@) =~= self@.tracks);
        out
    }
}

/// A track with the same fields.
fn copy_track(t: &Track) -> (r: Track)
    ensures
        r@ == t@,
{
    Track {
        id: t.id,
        spotify_id: t.spotify_id.clone(),
        playlist_id: t.playlist_id,
        name: t.name.clone(),
        url: t.url.clone(),
        posted: t.posted,
    }
}

/// A playlist with the same fields.
fn copy_playlist(p: &Playlist) -> (r: Playlist)
    ensures
        r@ == p@,
{
    Playlist { id: p.id, spotify_id: p.spotify_id.clone(), name: p.name.clone() }
}

/// Stores a track under a playlist. The store holds each remote identifier
/// once, whatever the playlist: a second insertion is refused with
/// `DuplicateTrack` and changes nothing.
#[verifier::loop_isolation(false)]
pub fn insert_track(
    conn: &mut Store,
    spotify_id: &str,
    playlist_id: i32,
    name: &str,
    url: &str,
) -> (r: Result<usize, Error>)
    requires
        old(conn).wf(),
    ensures
        final(conn).wf(),
        final(conn)@ == old(conn)@.with_track(spotify_id@, playlist_id as int, name@, url@),
        match r {
            Ok(n) => n == 1 && old(conn)@.track_refusal(spotify_id@) is None,
            Err(e) => old(conn)@.track_refusal(spotify_id@) == Some(e),
        },
        r != Err::<usize, Error>(Error::Storage) ==> final(conn)@.has_track(spotify_id@),
{
    let n = conn.tracks.len();
    let mut i: usize = 0;
    while i < n
        invariant
            *conn == *old(conn),
            n == conn.tracks.len(),
            i <= n,
            forall|j: int| 0 <= j < i ==> conn.tracks@[j].spotify_id@ != spotify_id@,
        decreases n - i,
    {
        if same_text(conn.tracks[i].spotify_id.as_str(), spotify_id) {
            assert(conn@.tracks[i as int].spotify_id == spotify_id@);
            return Err(Error::DuplicateTrack);
        }
        i += 1;
    }
    assert(!conn@.has_track(spotify_id@));
    let mut id: i32 = 1;
    if n > 0 {
        let last = conn.tracks[n - 1].id;
        assert(conn@.tracks.last().id == last);
        if last == i32::MAX {
            return Err(Error::Storage);
        }
        assert(conn@.tracks[n - 1].id > 0);
        id = last + 1;
    }
    let track = Track {
        id,
        spotify_id: spotify_id.to_owned(),
        playlist_id,
        name: name.to_owned(),
        url: url.to_owned(),
        posted: 0,
    };
    conn.tracks.push(track);
    proof {
        let want = old(conn)@.with_track(spotify_id@, playlist_id as int, name@, url@);
        assert(conn@.tracks =~= want.tracks);
        assert(conn@.tracks[n as int].spotify_id == spotify_id@);
        assert forall|a: int, b: int| 0 <= a < b < conn@.tracks.len() implies conn@.tracks[a].id
            < conn@.tracks[b].id && conn@.tracks[a].spotify_id != conn@.tracks[b].spotify_id by {
            if b < n {
                assert(conn@.tracks[a] == old(conn)@.tracks[a]);
                assert(conn@.tracks[b] == old(conn)@.tracks[b]);
            } else {
                assert(conn@.tracks[a] == old(conn)@.tracks[a]);
                if a < n - 1 {
                    assert(old(conn)@.tracks[a].id < old(conn)@.tracks[n - 1].id);
                }
            }
        }
    }
    Ok(1)
}

/// The position of the track with this identifier, if there is one.
#[verifier::loop_isolation(false)]
fn find_track(conn: &Store, id: i32) -> (r: Option<usize>)
    requires
        conn.wf(),
    ensures
        r is Some == conn@.has_track_id(id as int),
        r is Some ==> r->0 == conn@.track_row(id as int) && r->0 < conn.tracks.len(),
{
    let mut i: usize = 0;
    while i < conn.tracks.len()
        invariant
            i <= conn.tracks.len(),
            forall|j: int| 0 <= j < i ==> conn@.tracks[j].id != id,
        decreases conn.tracks.len() - i,
    {
        if conn.tracks[i].id == id {
            proof {
                assert(conn@.tracks[i as int].id == id);
                let c = conn@.track_row(id as int);
                assert(conn@.tracks[c].id == id);
                if c < i {
                    assert(conn@.tracks[c].id < conn@.tracks[i as int].id);
                }
                if i < c {
                    assert(conn@.tracks[i as int].id < conn@.tracks[c].id);
                }
            }
            return Some(i);
        }
        i += 1;
    }
    None
}

/// The position of the playlist's offset row, if it has one.
#[verifier::loop_isolation(false)]
fn find_offset(conn: &Store, playlist_id: i32) -> (r: Option<usize>)
    requires
        conn.wf(),
    ensures
        r is Some == conn@.has_offset(playlist_id as int),
        r is Some ==> r->0 == conn@.offset_row(playlist_id as int) && r->0 < conn.offsets.len(),
{
    let mut i: usize = 0;
    while i < conn.offsets.len()
        invariant
            i <= conn.offsets.len(),
            forall|j: int| 0 <= j < i ==> conn@.offsets[j].playlist_id != playlist_id,
        decreases conn.offsets.len() - i,
    {
        if conn.offsets[i].playlist_id == playlist_id {
            proof {
                assert(conn@.offsets[i as int].playlist_id == playlist_id);
                let c = conn@.offset_row(playlist_id as int);
                assert(conn@.offsets[c].playlist_id == playlist_id);
                if c < i {
                    assert(conn@.offsets[c].playlist_id != conn@.offsets[i as int].playlist_id);
                }
                if i < c {
                    assert(conn@.offsets[i as int].playlist_id != conn@.offsets[c].playlist_id);
                }
            }
            return Some(i);
        }
        i += 1;
    }
    None
}

/// Removes the track with this identifier, if there is one.
pub fn delete_track(conn: &mut Store, id: i32)
    requires
        old(conn).wf(),
    ensures
        final(conn).wf(),
        final(conn)@ == old(conn)@.without_track(id as int),
{
    match find_track(conn, id) {
        Some(k) => {
            conn.tracks.remove(k);
            proof {
                let o = old(conn)@.tracks;
                let t = conn@.tracks;
                assert(t =~= o.remove(k as int));
                assert(conn@.playlists == old(conn)@.playlists);
                assert(conn@.offsets == old(conn)@.offsets);
                assert forall|a: int| 0 <= a < t.len() implies 0 < #[trigger] t[a].id
                    <= i32::MAX by {
                    let a2 = if a < k { a } else { a + 1 };
                    assert(t[a] == o[a2]);
                }
                assert forall|a: int, b: int| 0 <= a < b < t.len() implies t[a].id < t[b].id
                    && t[a].spotify_id != t[b].spotify_id by {
                    let a2 = if a < k { a } else { a + 1 };
                    let b2 = if b < k { b } else { b + 1 };
                    assert(t[a] == o[a2]);
                    assert(t[b] == o[b2]);
                    assert(o[a2].id < o[b2].id);
                    assert(o[a2].spotify_id != o[b2].spotify_id);
                }
            }
        },
        None => {},
    }
}

/// Marks the stored track that has the identifier of `track` as posted.
pub fn mark_track_as_posted(conn: &mut Store, track: &Track)
    requires
        old(conn).wf(),
    ensures
        final(conn).wf(),
        final(conn)@ == old(conn)@.with_posted(track.id as int),
{
    match find_track(conn, track.id) {
        Some(k) => {
            let mut row = copy_track(&conn.tracks[k]);
            row.posted = 1;
            conn.tracks.set(k, row);
            proof {
                assert(conn@.tracks =~= old(conn)@.with_posted(track.id as int).tracks);
            }
        },
        None => {},
    }
}

/// The tracks that are eligible for publishing: those not posted yet, in
/// the order of the store.
#[verifier::loop_isolation(false)]
pub fn get_tracks(conn: &Store) -> (r: Vec<Track>)
    ensures
        r@.map_values(|t: Track| t@) == conn@.unposted(),
{
    let mut out: Vec<Track> = Vec::new();
    let mut i: usize = 0;
    while i < conn.tracks.len()
        invariant
            i <= conn.tracks.len(),
            out@.map_values(|t: Track| t@) == conn@.upto(i as int).unposted(),
        decreases conn.tracks.len() - i,
    {
        proof {
            reveal(Seq::filter);
            assert(conn@.upto(i + 1).tracks.drop_last() =~= conn@.upto(i as int).tracks);
            assert(conn@.upto(i + 1).tracks.last() == conn@.tracks[i as int]);
        }
        if conn.tracks[i].posted == 0 {
            let ghost before = out@;
            out.push(copy_track(&conn.tracks[i]));
            assert(out@.map_values(|t: Track| t@) =~= before.map_values(|t: Track| t@).push(
                conn@.tracks[i as int],
            ));
        }
        i += 1;
    }
    assert(conn@.upto(i as int).tracks =~= conn@.tracks);
    out
}

/// Registers a playlist and returns its identifier. A remote identifier
/// is registered once: a second registration is refused with `Storage`.
#[verifier::loop_isolation(false)]
pub fn insert_playlist(conn: &mut Store, name: &str, spotify_id: &str) -> (r: Result<i32, Error>)
    requires
        old(conn).wf(),
    ensures
        final(conn).wf(),
        r is Ok == !old(conn)@.refuses_playlist(spotify_id@),
        match r {
            Ok(id) => id == old(conn)@.next_playlist_id() && final(conn)@ == old(
                conn,
            )@.with_playlist(name@, spotify_id@),
            Err(e) => e == Error::Storage && final(conn)@ == old(conn)@,
        },
{
    let n = conn.playlists.len();
    let mut i: usize = 0;
    while i < n
        invariant
            *conn == *old(conn),
            i <= n,
            forall|j: int| 0 <= j < i ==> conn@.playlists[j].spotify_id != spotify_id@,
        decreases n - i,
    {
        if same_text(conn.playlists[i].spotify_id.as_str(), spotify_id) {
            assert(conn@.playlists[i as int].spotify_id == spotify_id@);
            return Err(Error::Storage);
        }
        i += 1;
    }
    let mut id: i32 = 1;
    if n > 0 {
        let last = conn.playlists[n - 1].id;
        assert(conn@.playlists.last().id == last);
        if last == i32::MAX {
            return Err(Error::Storage);
        }
        assert(conn@.playlists[n - 1].id > 0);
        id = last + 1;
    }
    conn.playlists.push(Playlist { id, spotify_id: spotify_id.to_owned(), name: name.to_owned() });
    proof {
        assert(conn@.playlists =~= old(conn)@.with_playlist(name@, spotify_id@).playlists);
        assert forall|a: int, b: int| 0 <= a < b < conn@.playlists.len() implies conn@.playlists[a].id
            < conn@.playlists[b].id && conn@.playlists[a].spotify_id
            != conn@.playlists[b].spotify_id by {
            assert(conn@.playlists[a] == old(conn)@.playlists[a]);
            if b < n {
                assert(conn@.playlists[b] == old(conn)@.playlists[b]);
            } else if a < n - 1 {
                assert(old(conn)@.playlists[a].id < old(conn)@.playlists[n - 1].id);
            }
        }
    }
    Ok(id)
}

/// The registered playlists, in the order of registration.
#[verifier::loop_isolation(false)]
pub fn get_playlists(conn: &Store) -> (r: Vec<Playlist>)
    ensures
        r@.map_values(|p: Playlist| p@) == conn@.playlists,
{
    let mut out: Vec<Playlist> = Vec::new();
    let mut i: usize = 0;
    while i < conn.playlists.len()
        invariant
            i <= conn.playlists.len(),
            out@.len() == i,
            forall|j: int| 0 <= j < i ==> out@[j]@ == conn.playlists@[j]@,
        decreases conn.playlists.len() - i,
    {
        out.push(copy_playlist(&conn.playlists[i]));
        i += 1;
    }
    assert(out@.map_values(|p: Playlist| p@) =~= conn@.playlists);
    out
}

/// Gives a playlist its offset row. A playlist has one row: a second one,
/// or a negative offset, is refused with `Storage`.
pub fn insert_playlist_offset(conn: &mut Store, playlist_id: i32, offset: i32) -> (r: Result<
    (),
    Error,
>)
    requires
        old(conn).wf(),
    ensures
        final(conn).wf(),
        r is Ok == !old(conn)@.refuses_offset(playlist_id as int, offset as int),
        match r {
            Ok(_) => final(conn)@ == old(conn)@.with_new_offset(playlist_id, offset),
            Err(e) => e == Error::Storage && final(conn)@ == old(conn)@,
        },
{
    if offset < 0 {
        return Err(Error::Storage);
    }
    if find_offset(conn, playlist_id).is_some() {
        return Err(Error::Storage);
    }
    let n = conn.offsets.len();
    let mut id: i32 = 1;
    if n > 0 {
        let last = conn.offsets[n - 1].id;
        assert(conn@.offsets.last().id == last);
        if last == i32::MAX {
            return Err(Error::Storage);
        }
        assert(conn@.offsets[n - 1].id > 0);
        id = last + 1;
    }
    conn.offsets.push(PlaylistOffset { id, offset, playlist_id });
    proof {
        assert(conn@.offsets =~= old(conn)@.with_new_offset(playlist_id, offset).offsets);
        assert forall|a: int, b: int| 0 <= a < b < conn@.offsets.len() implies conn@.offsets[a].id
            < conn@.offsets[b].id && conn@.offsets[a].playlist_id
            != conn@.offsets[b].playlist_id by {
            assert(conn@.offsets[a] == old(conn)@.offsets[a]);
            if b < n {
                assert(conn@.offsets[b] == old(conn)@.offsets[b]);
            } else if a < n - 1 {
                assert(old(conn)@.offsets[a].id < old(conn)@.offsets[n - 1].id);
            }
        }
    }
    Ok(())
}

/// Moves a playlist's offset forward. The offset never goes back: a
/// smaller value, or a playlist without a row, is refused with `Storage`.
pub fn update_playlist_offset(conn: &mut Store, playlist_id: i32, offset_val: i32) -> (r: Result<
    (),
    Error,
>)
    requires
        old(conn).wf(),
    ensures
        final(conn).wf(),
        r is Ok == old(conn)@.accepts_offset(playlist_id as int, offset_val as int),
        match r {
            Ok(_) => final(conn)@ == old(conn)@.with_offset(playlist_id as int, offset_val as int),
            Err(e) => e == Error::Storage && final(conn)@ == old(conn)@,
        },
{
    match find_offset(conn, playlist_id) {
        Some(k) => {
            let row = conn.offsets[k];
            if offset_val < row.offset {
                return Err(Error::Storage);
            }
            conn.offsets.set(k, PlaylistOffset { id: row.id, offset: offset_val, playlist_id });
            proof {
                assert(conn@.offsets =~= old(conn)@.with_offset(
                    playlist_id as int,
                    offset_val as int,
                ).offsets);
            }
            Ok(())
        },
        None => Err(Error::Storage),
    }
}

/// The playlist's offset: how many entries of its remote listing have
/// been considered. `None` where the playlist has no row.
pub fn get_playlist_offset(conn: &Store, playlist_id_val: i32) -> (r: Option<i32>)
    requires
        conn.wf(),
    ensures
        r is Some == conn@.offset_of(playlist_id_val as int) is Some,
        r is Some ==> r->0 == conn@.offset_of(playlist_id_val as int)->0,
{
    match find_offset(conn, playlist_id_val) {
        Some(k) => Some(conn.offsets[k].offset),
        None => None,
    }
}

/// Registers a playlist with its offset row at zero, and returns the
/// playlist's identifier. Where the playlist is refused nothing changes;
/// where the offset row is refused the playlist stays registered without
/// one. Both are `Storage` errors.
pub fn add_playlist(conn: &mut Store, name: &str, spotify_id: &str) -> (r: Result<i32, Error>)
    requires
        old(conn).wf(),
    ensures
        final(conn).wf(),
        r is Err ==> r->Err_0 == Error::Storage,
        r is Ok ==> final(conn)@.offset_of(r->Ok_0 as int) == Some(0int),
        ({
            let listed = old(conn)@.with_playlist(name@, spotify_id@);
            let id = old(conn)@.next_playlist_id();
            if old(conn)@.refuses_playlist(spotify_id@) {
                r is Err && final(conn)@ == old(conn)@
            } else if listed.refuses_offset(id, 0) {
                r is Err && final(conn)@ == listed
            } else {
                r == Ok::<i32, Error>(id as i32) && final(conn)@ == listed.with_new_offset(
                    id as i32,
                    0,
                )
            }
        }),
{
    let id = match insert_playlist(conn, name, spotify_id) {
        Ok(id) => id,
        Err(e) => {
            return Err(e);
        },
    };
    match insert_playlist_offset(conn, id, 0) {
        Ok(_) => {
            proof {
                lemma_offset_row_unique(conn@, id as int, conn@.offsets.len() - 1);
            }
            Ok(id)
        },
        Err(e) => Err(e),
    }
}

/// Inserting a track keeps the store well formed and leaves playlists and
/// offsets alone.
pub proof fn lemma_with_track(
    s: StoreView,
    spotify_id: Seq<char>,
    playlist_id: int,
    name: Seq<char>,
    url: Seq<char>,
)
    requires
        s.wf(),
    ensures
        s.with_track(spotify_id, playlist_id, name, url).wf(),
        s.with_track(spotify_id, playlist_id, name, url).offsets == s.offsets,
        s.with_track(spotify_id, playlist_id, name, url).playlists == s.playlists,
        s.with_track(spotify_id, playlist_id, name, url).has_track(spotify_id)
            || s.track_refusal(spotify_id) == Some(Error::Storage),
{
    let t = s.with_track(spotify_id, playlist_id, name, url);
    if s.track_refusal(spotify_id) is None {
        let n = s.tracks.len() as int;
        assert(t.tracks[n].spotify_id == spotify_id);
        assert forall|a: int, b: int| 0 <= a < b < t.tracks.len() implies t.tracks[a].id
            < t.tracks[b].id && t.tracks[a].spotify_id != t.tracks[b].spotify_id by {
            assert(t.tracks[a] == s.tracks[a]);
            if b < n {
                assert(t.tracks[b] == s.tracks[b]);
            } else if a < n - 1 {
                assert(s.tracks[a].id < s.tracks[n - 1].id);
            }
        }
        assert forall|a: int| 0 <= a < t.tracks.len() implies 0 < #[trigger] t.tracks[a].id
            <= i32::MAX by {
            if a < n {
                assert(t.tracks[a] == s.tracks[a]);
            } else if n > 0 {
                assert(s.tracks[n - 1].id > 0);
            }
        }
    }
}

/// A playlist has one offset row: any row of the playlist is the row.
pub proof fn lemma_offset_row_unique(s: StoreView, playlist_id: int, k: int)
    requires
        s.wf(),
        0 <= k < s.offsets.len(),
        s.offsets[k].playlist_id == playlist_id,
    ensures
        s.has_offset(playlist_id),
        s.offset_row(playlist_id) == k,
        s.offset_of(playlist_id) == Some(s.offsets[k].offset as int),
{
    let c = s.offset_row(playlist_id);
    assert(s.offsets[c].playlist_id == playlist_id);
    if c < k {
        assert(s.offsets[c].playlist_id != s.offsets[k].playlist_id);
    }
    if k < c {
        assert(s.offsets[k].playlist_id != s.offsets[c].playlist_id);
    }
}

/// Replacing a playlist's offset by one that is not negative keeps the
/// store well formed, leaves tracks and playlists alone, and is what
/// `offset_of` then gives. Replacing it by itself changes nothing.
pub proof fn lemma_with_offset(s: StoreView, playlist_id: int, offset: int)
    requires
        s.wf(),
        s.has_offset(playlist_id),
        0 <= offset <= i32::MAX,
    ensures
        s.with_offset(playlist_id, offset).wf(),
        s.with_offset(playlist_id, offset).tracks == s.tracks,
        s.with_offset(playlist_id, offset).playlists == s.playlists,
        s.with_offset(playlist_id, offset).offset_of(playlist_id) == Some(offset),
        s.offset_of(playlist_id) == Some(offset) ==> s.with_offset(playlist_id, offset) == s,
{
    let k = s.offset_row(playlist_id);
    let t = s.with_offset(playlist_id, offset);
    assert(s.offsets[k].playlist_id == playlist_id);
    assert forall|a: int| 0 <= a < t.offsets.len() implies #[trigger] t.offsets[a].id
        == s.offsets[a].id && t.offsets[a].playlist_id == s.offsets[a].playlist_id && (a != k
        ==> t.offsets[a] == s.offsets[a]) by {}
    assert forall|a: int, b: int| 0 <= a < b < t.offsets.len() implies t.offsets[a].id
        < t.offsets[b].id && t.offsets[a].playlist_id != t.offsets[b].playlist_id by {
        assert(s.offsets[a].id < s.offsets[b].id);
        assert(s.offsets[a].playlist_id != s.offsets[b].playlist_id);
    }
    assert forall|a: int| 0 <= a < t.offsets.len() implies 0 < #[trigger] t.offsets[a].id && 0
        <= t.offsets[a].offset by {
        assert(0 < s.offsets[a].id);
        assert(0 <= s.offsets[a].offset);
    }
    assert(t.offsets[k].playlist_id == playlist_id);
    lemma_offset_row_unique(t, playlist_id, k);
    if s.offset_of(playlist_id) == Some(offset) {
        assert(t.offsets =~= s.offsets);
    }
}

/// The offset of a playlist depends on the offset rows alone.
pub proof fn lemma_offset_of_reads_offsets(a: StoreView, b: StoreView, playlist_id: int)
    requires
        a.wf(),
        b.wf(),
        a.offsets == b.offsets,
    ensures
        a.has_offset(playlist_id) == b.has_offset(playlist_id),
        a.offset_of(playlist_id) == b.offset_of(playlist_id),
{
    if a.has_offset(playlist_id) {
        let k = a.offset_row(playlist_id);
        assert(b.offsets[k].playlist_id == playlist_id);
        lemma_offset_row_unique(a, playlist_id, k);
        lemma_offset_row_unique(b, playlist_id, k);
    }
    if b.has_offset(playlist_id) {
        let k = b.offset_row(playlist_id);
        assert(a.offsets[k].playlist_id == playlist_id);
    }
}

} // verus!
