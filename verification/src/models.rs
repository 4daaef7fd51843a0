use vstd::prelude::*;

verus! {

/// A track as the store holds it.
#[derive(Debug, Clone, PartialEq, Eq)]
pub struct Track {
    pub id: i32,
    pub spotify_id: String,
    pub playlist_id: i32,
    pub name: String,
    pub url: String,
    pub posted: i32,
}

/// Mathematical value of a [`Track`].
pub struct TrackView {
    pub id: int,
    pub spotify_id: Seq<char>,
    pub playlist_id: int,
    pub name: Seq<char>,
    pub url: Seq<char>,
    pub posted: int,
}

impl View for Track {
    type V = TrackView;

    open spec fn view(&self) -> TrackView {
        TrackView {
            id: self.id as int,
            spotify_id: self.spotify_id@,
            playlist_id: self.playlist_id as int,
            name: self.name@,
            url: self.url@,
            posted: self.posted as int,
        }
    }
}

/// A track that is about to be stored.
#[derive(Debug, Clone, Copy, PartialEq, Eq)]
pub struct NewTrack<'a> {
    pub spotify_id: &'a str,
    pub playlist_id: i32,
    pub name: &'a str,
    pub url: &'a str,
}

impl<'a> NewTrack<'a> {
    /// The row this track becomes when the store gives it `id`: not yet
    /// posted.
    pub open spec fn row(self, id: int) -> TrackView {
        TrackView {
            id,
            spotify_id: self.spotify_id@,
            playlist_id: self.playlist_id as int,
            name: self.name@,
            url: self.url@,
            posted: 0,
        }
    }
}

/// A registered playlist.
#[derive(Debug, Clone, PartialEq, Eq)]
pub struct Playlist {
    pub id: i32,
    pub spotify_id: String,
    pub name: String,
}

/// Mathematical value of a [`Playlist`].
pub struct PlaylistView {
    pub id: int,
    pub spotify_id: Seq<char>,
    pub name: Seq<char>,
}

impl View for Playlist {
    type V = PlaylistView;

    open spec fn view(&self) -> PlaylistView {
        PlaylistView { id: self.id as int, spotify_id: self.spotify_id@, name: self.name@ }
    }
}

/// A playlist that is about to be registered.
#[derive(Debug, Clone, Copy, PartialEq, Eq)]
pub struct NewPlaylist<'a> {
    pub name: &'a str,
    pub spotify_id: &'a str,
}

impl<'a> NewPlaylist<'a> {
    /// The row this playlist becomes when the store gives it `id`.
    pub open spec fn row(self, id: int) -> PlaylistView {
        PlaylistView { id, spotify_id: self.spotify_id@, name: self.name@ }
    }
}

/// How many entries of a playlist's remote listing have been considered.
#[derive(Debug, Clone, Copy, PartialEq, Eq, Structural)]
pub struct PlaylistOffset {
    pub id: i32,
    pub offset: i32,
    pub playlist_id: i32,
}

/// An offset row that is about to be stored.
#[derive(Debug, Clone, Copy, PartialEq, Eq, Structural)]
pub struct NewPlaylistOffset {
    pub offset: i32,
    pub playlist_id: i32,
}

impl NewPlaylistOffset {
    /// The row this becomes when the store gives it `id`.
    pub open spec fn row(self, id: i32) -> PlaylistOffset {
        PlaylistOffset { id, offset: self.offset, playlist_id: self.playlist_id }
    }
}

} // verus!
