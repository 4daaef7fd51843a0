use vstd::prelude::*;
use crate::error::Error;
use crate::request::{tracks_url, tracks_url_text};
use crate::track::{items_of, SpotifyTrack, SpotifyTrackInner, SpotifyTrackInnerView, SpotifyTrackPage};

verus! {

/// A playlist's remote listing held in memory: its entries in the remote
/// order, served in pages of `page_size` entries. A request for the page
/// at `failing_offset` fails.
#[derive(Debug)]
pub struct RemotePlaylist {
    pub spotify_id: String,
    pub entries: Vec<SpotifyTrack>,
    pub page_size: usize,
    pub failing_offset: Option<i32>,
}

/// Mathematical value of a [`RemotePlaylist`].
pub struct RemoteView {
    pub spotify_id: Seq<char>,
    pub entries: Seq<Option<SpotifyTrackInnerView>>,
    pub page_size: int,
    pub failing_offset: Option<int>,
}

impl RemoteView {
    /// Pages hold at least one entry, and every position in the listing
    /// is an offset that the store can hold.
    pub open spec fn wf(self) -> bool {
        self.page_size > 0 && self.entries.len() <= i32::MAX
    }

    /// Whether the request for the page at `offset` fails.
    pub open spec fn fails_at(self, offset: int) -> bool {
        self.failing_offset == Some(offset)
    }

    /// How many entries the page at `offset` holds.
    pub open spec fn count_at(self, offset: int) -> int {
        if offset < 0 || offset >= self.entries.len() || self.page_size <= 0 {
            0
        } else if self.entries.len() - offset < self.page_size {
            self.entries.len() - offset
        } else {
            self.page_size
        }
    }

    /// The entries of the page at `offset`.
    pub open spec fn page_at(self, offset: int) -> Seq<Option<SpotifyTrackInnerView>> {
        if self.count_at(offset) == 0 {
            Seq::empty()
        } else {
            self.entries.subrange(offset, offset + self.count_at(offset))
        }
    }

    /// Whether the listing goes on after the page at `offset`.
    pub open spec fn more_after(self, offset: int) -> bool {
        0 <= offset && self.page_size > 0 && offset + self.page_size < self.entries.len()
    }

    /// Every entry from `offset` on, gathered page after page. Nothing
    /// where one of the requests fails.
    pub open spec fn listing_from(self, offset: int) -> Option<Seq<Option<SpotifyTrackInnerView>>>
        decreases self.entries.len() - offset,
    {
        if self.fails_at(offset) {
            None
        } else if self.more_after(offset) {
            match self.listing_from(offset + self.page_size) {
                None => None,
                Some(rest) => Some(self.page_at(offset) + rest),
            }
        } else {
            Some(self.page_at(offset))
        }
    }
}

impl View for RemotePlaylist {
    type V = RemoteView;

    open spec fn view(&self) -> RemoteView {
        RemoteView {
            spotify_id: self.spotify_id@,
            entries: items_of(self.entries@),
            page_size: self.page_size as int,
            failing_offset: match self.failing_offset {
                Some(o) => Some(o as int),
                None => None,
            },
        }
    }
}

/// An entry with the same fields.
pub fn copy_entry(entry: &SpotifyTrack) -> (r: SpotifyTrack)
    ensures
        r@ == entry@,
{
    match &entry.track {
        Some(t) => SpotifyTrack {
            track: Some(
                SpotifyTrackInner {
                    spotify_id: t.spotify_id.clone(),
                    name: t.name.clone(),
                    url: t.url.clone(),
                },
            ),
        },
        None => SpotifyTrack { track: None },
    }
}

impl RemotePlaylist {
    /// The invariant of the listing, stated over its value.
    pub open spec fn wf(&self) -> bool {
        self@.wf()
    }

    /// A listing that answers every request.
    pub fn new(spotify_id: String, entries: Vec<SpotifyTrack>, page_size: usize) -> (r:
        RemotePlaylist)
        ensures
            r@ == (RemoteView {
                spotify_id: spotify_id@,
                entries: items_of(entries@),
                page_size: page_size as int,
                failing_offset: None,
            }),
    {
        RemotePlaylist { spotify_id, entries, page_size, failing_offset: None }
    }

    /// Answers the request for the page that starts at `offset`: the
    /// entries from there on, as many as a page holds, and the address of
    /// the page after it where entries are left.
    #[verifier::loop_isolation(false)]
    pub fn fetch(&self, offset: i32) -> (r: Result<SpotifyTrackPage, Error>)
        requires
            self.wf(),
        ensures
            r is Err == self@.fails_at(offset as int),
            match r {
                Ok(page) => {
                    &&& page.items() == self@.page_at(offset as int)
                    &&& page.has_next() == self@.more_after(offset as int)
                    &&& page.next is Some ==> page.next->0@ == tracks_url_text(
                        self@.spotify_id,
                        offset + self@.page_size,
                    )
                },
                Err(e) => e == Error::Fetch,
            },
    {
        match self.failing_offset {
            Some(o) => {
                if o == offset {
                    return Err(Error::Fetch);
                }
            },
            None => {},
        }
        let n = self.entries.len();
        assert(items_of(self.entries@).len() == n);
        let mut tracks: Vec<SpotifyTrack> = Vec::new();
        if offset < 0 || self.page_size == 0 || offset as usize >= n {
            assert(items_of(tracks@) =~= self@.page_at(offset as int));
            return Ok(SpotifyTrackPage { tracks, next: None });
        }
        let from = offset as usize;
        let left = n - from;
        let count = if left < self.page_size {
            left
        } else {
            self.page_size
        };
        let mut i: usize = 0;
        while i < count
            invariant
                i <= count,
                tracks@.len() == i,
                forall|j: int| 0 <= j < i ==> tracks@[j]@ == self.entries@[from + j]@,
            decreases count - i,
        {
            tracks.push(copy_entry(&self.entries[from + i]));
            i += 1;
        }
        assert(items_of(tracks@) =~= self@.page_at(offset as int));
        let next = if count < left {
            Some(tracks_url(self.spotify_id.as_str(), offset + (count as i32)))
        } else {
            None
        };
        Ok(SpotifyTrackPage { tracks, next })
    }
}

/// The entries of a listing from `offset` on, fetched page after page
/// while the listing says that it goes on. A failed request fails the
/// whole call.
pub fn get_tracks(remote: &RemotePlaylist, offset: i32) -> (r: Result<Vec<SpotifyTrack>, Error>)
    requires
        remote.wf(),
    ensures
        r is Ok == remote@.listing_from(offset as int) is Some,
        match r {
            Ok(tracks) => items_of(tracks@) == remote@.listing_from(offset as int)->0,
            Err(e) => e == Error::Fetch,
        },
{
    let ghost total = remote@.listing_from(offset as int);
    let mut tracks: Vec<SpotifyTrack> = Vec::new();
    let mut at = offset;
    assert(items_of(tracks@) + remote@.listing_from(at as int)->0 =~= remote@.listing_from(
        at as int,
    )->0);
    loop
        invariant
            remote.wf(),
            total is Some == remote@.listing_from(at as int) is Some,
            total is Some ==> total->0 == items_of(tracks@) + remote@.listing_from(at as int)->0,
            total == remote@.listing_from(offset as int),
        decreases remote@.entries.len() - at,
    {
        let mut page = match remote.fetch(at) {
            Ok(page) => page,
            Err(e) => {
                return Err(e);
            },
        };
        let more = page.next.is_some();
        let ghost before = tracks@;
        let ghost got = page.tracks@;
        tracks.append(&mut page.tracks);
        proof {
            assert(items_of(tracks@) =~= items_of(before) + items_of(got));
            let rest = remote@.listing_from(at as int);
            if rest is Some {
                if more {
                    let tail = remote@.listing_from(at + remote@.page_size)->0;
                    assert(items_of(before) + (items_of(got) + tail) =~= items_of(tracks@) + tail);
                } else {
                    assert(items_of(before) + items_of(got) =~= items_of(tracks@));
                }
            }
        }
        if !more {
            return Ok(tracks);
        }
        assert(items_of(remote.entries@).len() == remote.entries@.len());
        at = at + (remote.page_size as i32);
    }
}

} // verus!
