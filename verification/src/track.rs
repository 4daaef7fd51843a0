use vstd::prelude::*;

verus! {

/// The catalog item behind a playlist entry.
#[derive(Debug, Clone, PartialEq, Eq)]
pub struct SpotifyTrackInner {
    pub spotify_id: String,
    pub name: String,
    pub url: String,
}

/// Mathematical value of a [`SpotifyTrackInner`].
pub struct SpotifyTrackInnerView {
    pub spotify_id: Seq<char>,
    pub name: Seq<char>,
    pub url: Seq<char>,
}

impl View for SpotifyTrackInner {
    type V = SpotifyTrackInnerView;

    open spec fn view(&self) -> SpotifyTrackInnerView {
        SpotifyTrackInnerView { spotify_id: self.spotify_id@, name: self.name@, url: self.url@ }
    }
}

/// One entry of a playlist's listing. The catalog item is absent when the
/// track was withdrawn.
#[derive(Debug, Clone, PartialEq, Eq)]
pub struct SpotifyTrack {
    pub track: Option<SpotifyTrackInner>,
}

impl View for SpotifyTrack {
    type V = Option<SpotifyTrackInnerView>;

    open spec fn view(&self) -> Option<SpotifyTrackInnerView> {
        match self.track {
            Some(inner) => Some(inner@),
            None => None,
        }
    }
}

impl SpotifyTrack {
    /// An entry whose catalog item is present.
    pub fn present(spotify_id: String, name: String, url: String) -> (r: SpotifyTrack)
        ensures
            r@ == Some(SpotifyTrackInnerView { spotify_id: spotify_id@, name: name@, url: url@ }),
    {
        SpotifyTrack { track: Some(SpotifyTrackInner { spotify_id, name, url }) }
    }

    /// An entry whose catalog item was withdrawn.
    pub fn withdrawn() -> (r: SpotifyTrack)
        ensures
            r@ is None,
    {
        SpotifyTrack { track: None }
    }

    /// Whether the entry's catalog item was withdrawn.
    pub fn is_null(&self) -> (r: bool)
        ensures
            r == (self@ is None),
    {
        match self.track {
            Some(_) => false,
            None => true,
        }
    }

    /// The remote identifier, unless the item was withdrawn.
    pub fn spotify_id(&self) -> (r: Option<String>)
        ensures
            r is Some == self@ is Some,
            r is Some ==> r->0@ == self@->0.spotify_id,
    {
        match &self.track {
            Some(inner) => Some(inner.spotify_id.clone()),
            None => None,
        }
    }

    /// The title, unless the item was withdrawn.
    pub fn name(&self) -> (r: Option<String>)
        ensures
            r is Some == self@ is Some,
            r is Some ==> r->0@ == self@->0.name,
    {
        match &self.track {
            Some(inner) => Some(inner.name.clone()),
            None => None,
        }
    }

    /// The public address, unless the item was withdrawn.
    pub fn url(&self) -> (r: Option<String>)
        ensures
            r is Some == self@ is Some,
            r is Some ==> r->0@ == self@->0.url,
    {
        match &self.track {
            Some(inner) => Some(inner.url.clone()),
            None => None,
        }
    }
}

/// One page of a playlist's listing, with the address of the page after it
/// where there is one.
#[derive(Debug, Clone, PartialEq, Eq)]
pub struct SpotifyTrackPage {
    pub tracks: Vec<SpotifyTrack>,
    pub next: Option<String>,
}

/// The values of a run of entries, in order.
pub open spec fn items_of(entries: Seq<SpotifyTrack>) -> Seq<Option<SpotifyTrackInnerView>> {
    entries.map_values(|t: SpotifyTrack| t@)
}

impl SpotifyTrackPage {
    /// The entries of the page, in order.
    pub open spec fn items(&self) -> Seq<Option<SpotifyTrackInnerView>> {
        items_of(self.tracks@)
    }

    /// Whether the listing goes on after this page.
    pub open spec fn has_next(&self) -> bool {
        self.next is Some
    }
}

} // verus!
