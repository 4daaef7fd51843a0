use vstd::prelude::*;
use crate::error::Error;
use crate::store::StoreView;
use crate::track::{items_of, SpotifyTrack, SpotifyTrackInnerView, SpotifyTrackPage};

verus! {

/// The position of the first entry at or after `from` whose catalog item
/// is present; the length of the page where there is none.
pub open spec fn first_present(items: Seq<Option<SpotifyTrackInnerView>>, from: int) -> int
    decreases items.len() - from,
{
    if from < 0 || from >= items.len() {
        items.len() as int
    } else if items[from] is Some {
        from
    } else {
        first_present(items, from + 1)
    }
}

/// What inserting the entries of a page from position `from` on does to
/// the store, and whether the page went through. A withdrawn entry and a
/// duplicate change nothing and do not stop the page; an insertion that
/// the store refuses for another reason stops it.
pub open spec fn page_from(
    store: StoreView,
    playlist_id: int,
    items: Seq<Option<SpotifyTrackInnerView>>,
    from: int,
) -> (StoreView, bool)
    decreases items.len() - from,
{
    if from < 0 || from >= items.len() {
        (store, true)
    } else {
        match items[from] {
            None => page_from(store, playlist_id, items, from + 1),
            Some(t) => {
                if store.track_refusal(t.spotify_id) == Some(Error::Storage) {
                    (store, false)
                } else {
                    page_from(
                        store.with_track(t.spotify_id, playlist_id, t.name, t.url),
                        playlist_id,
                        items,
                        from + 1,
                    )
                }
            },
        }
    }
}

/// Skipping withdrawn entries does not change what the rest of the page
/// does.
pub proof fn lemma_page_from_skips_withdrawn(
    store: StoreView,
    playlist_id: int,
    items: Seq<Option<SpotifyTrackInnerView>>,
    from: int,
)
    requires
        0 <= from,
    ensures
        page_from(store, playlist_id, items, first_present(items, from)) == page_from(
            store,
            playlist_id,
            items,
            from,
        ),
        from <= first_present(items, from) || from > items.len(),
        first_present(items, from) <= items.len(),
        first_present(items, from) < items.len() ==> items[first_present(items, from)] is Some,
    decreases items.len() - from,
{
    if from < items.len() && items[from] is None {
        lemma_page_from_skips_withdrawn(store, playlist_id, items, from + 1);
    }
}

/// Where a synchronisation stands.
#[derive(Debug, Clone, Copy, PartialEq, Eq, Structural)]
pub enum Phase {
    /// Waiting for the page at the committed offset.
    Fetching,
    /// Waiting for the outcome of one insertion.
    Inserting,
    /// Waiting for the new offset to be persisted.
    Saving,
    /// The listing is exhausted.
    Finished,
    /// The run stopped on this error.
    Aborted(Error),
}

/// What a finished synchronisation did.
#[derive(Debug, Clone, Copy, PartialEq, Eq, Structural)]
pub struct SyncReport {
    pub playlist_id: i32,
    /// The committed offset at the end.
    pub offset: i32,
    /// How many tracks were stored.
    pub inserted: usize,
}

/// Where a synchronisation stopped: the playlist, the offset that was
/// committed last, and the error.
#[derive(Debug, Clone, Copy, PartialEq, Eq, Structural)]
pub struct SyncFailure {
    pub playlist_id: i32,
    pub offset: i32,
    pub error: Error,
}

/// What the engine asks its driver to do next.
#[derive(Debug, Clone, PartialEq, Eq)]
pub enum SyncAction {
    /// Request the page of the listing that starts at `offset`.
    Fetch { offset: i32 },
    /// Insert this track into the store.
    Insert { spotify_id: String, playlist_id: i32, name: String, url: String },
    /// Persist `offset` as the playlist's offset.
    SaveOffset { playlist_id: i32, offset: i32 },
    /// Nothing is left to do.
    Finish(SyncReport),
    /// The run stopped; `offset` is the last committed offset.
    Abort { error: Error, offset: i32 },
}

/// Mathematical value of a [`SyncAction`].
pub enum ActionView {
    Fetch { offset: int },
    Insert { spotify_id: Seq<char>, playlist_id: int, name: Seq<char>, url: Seq<char> },
    SaveOffset { playlist_id: int, offset: int },
    Finish(SyncReport),
    Abort { error: Error, offset: int },
}

impl View for SyncAction {
    type V = ActionView;

    open spec fn view(&self) -> ActionView {
        match *self {
            SyncAction::Fetch { offset } => ActionView::Fetch { offset: offset as int },
            SyncAction::Insert { spotify_id, playlist_id, name, url } => ActionView::Insert {
                spotify_id: spotify_id@,
                playlist_id: playlist_id as int,
                name: name@,
                url: url@,
            },
            SyncAction::SaveOffset { playlist_id, offset } => ActionView::SaveOffset {
                playlist_id: playlist_id as int,
                offset: offset as int,
            },
            SyncAction::Finish(report) => ActionView::Finish(report),
            SyncAction::Abort { error, offset } => ActionView::Abort { error, offset: offset as int },
        }
    }
}

/// What the driver reports back to the engine.
#[derive(Debug, PartialEq, Eq)]
pub enum SyncEvent {
    /// The requested page arrived.
    Page(SpotifyTrackPage),
    /// The request failed, or its answer could not be read.
    FetchFailed,
    /// The outcome of the insertion that was asked for.
    Stored(Result<usize, Error>),
    /// The outcome of persisting the offset.
    OffsetSaved(Result<(), Error>),
}

/// Mathematical value of a [`SyncEvent`].
pub enum EventView {
    Page { items: Seq<Option<SpotifyTrackInnerView>>, more: bool },
    FetchFailed,
    Stored(Result<usize, Error>),
    OffsetSaved(Result<(), Error>),
}

impl View for SyncEvent {
    type V = EventView;

    open spec fn view(&self) -> EventView {
        match *self {
            SyncEvent::Page(page) => EventView::Page { items: page.items(), more: page.has_next() },
            SyncEvent::FetchFailed => EventView::FetchFailed,
            SyncEvent::Stored(r) => EventView::Stored(r),
            SyncEvent::OffsetSaved(r) => EventView::OffsetSaved(r),
        }
    }
}

/// The decisions of one synchronisation of one playlist. The driver
/// performs the action that the engine asks for and hands the outcome
/// back with [`SyncEngine::handle`].
pub struct SyncEngine {
    playlist_id: i32,
    start: i32,
    offset: i32,
    phase: Phase,
    page: Vec<SpotifyTrack>,
    cursor: usize,
    more: bool,
    inserted: usize,
}

/// Mathematical value of a [`SyncEngine`].
pub struct EngineView {
    pub playlist_id: int,
    /// The offset the run began at.
    pub start: int,
    /// The last committed offset.
    pub offset: int,
    pub phase: Phase,
    /// The entries of the page at hand.
    pub items: Seq<Option<SpotifyTrackInnerView>>,
    /// The entry of the page that is next to be inserted.
    pub cursor: int,
    /// Whether the listing goes on after the page at hand.
    pub more: bool,
    /// How many tracks have been stored.
    pub inserted: int,
}

impl EngineView {
    /// The cursor is inside the page: at its start while a page is
    /// awaited, on a present entry while an insertion is awaited, at its
    /// end while the offset is saved. No offset is negative, the offset
    /// after the page fits the store's integer, and no more tracks were
    /// stored than entries were considered.
    pub open spec fn wf(self) -> bool {
        &&& i32::MIN <= self.playlist_id <= i32::MAX
        &&& 0 <= self.start <= self.offset
        &&& self.offset + self.items.len() <= i32::MAX
        &&& 0 <= self.cursor <= self.items.len()
        &&& 0 <= self.inserted <= self.offset - self.start + self.cursor
        &&& self.phase == Phase::Inserting ==> self.cursor < self.items.len()
            && self.items[self.cursor] is Some
        &&& self.phase == Phase::Saving ==> self.cursor == self.items.len()
        &&& self.phase == Phase::Fetching ==> self.cursor == 0
    }

    /// The engine with its cursor moved from `from` to the next present
    /// entry: it then awaits that insertion, or, past the last entry, the
    /// saving of the offset.
    pub open spec fn settle(self, from: int) -> EngineView {
        let c = first_present(self.items, from);
        EngineView {
            cursor: c,
            phase: if c < self.items.len() {
                Phase::Inserting
            } else {
                Phase::Saving
            },
            ..self
        }
    }

    /// The engine stopped on `error`.
    pub open spec fn abort(self, error: Error) -> EngineView {
        EngineView { phase: Phase::Aborted(error), ..self }
    }

    /// The engine after an event. An event that the phase does not wait
    /// for changes nothing.
    pub open spec fn step(self, event: EventView) -> EngineView {
        match (self.phase, event) {
            (Phase::Fetching, EventView::Page { items, more }) => {
                if self.offset + items.len() > i32::MAX {
                    self.abort(Error::Storage)
                } else {
                    EngineView { items, more, cursor: 0, ..self }.settle(0)
                }
            },
            (Phase::Fetching, EventView::FetchFailed) => self.abort(Error::Fetch),
            (Phase::Inserting, EventView::Stored(Ok(_))) => EngineView {
                inserted: self.inserted + 1,
                ..self
            }.settle(self.cursor + 1),
            (Phase::Inserting, EventView::Stored(Err(Error::DuplicateTrack))) => self.settle(
                self.cursor + 1,
            ),
            (Phase::Inserting, EventView::Stored(Err(_))) => self.abort(Error::Storage),
            (Phase::Saving, EventView::OffsetSaved(Ok(_))) => EngineView {
                offset: self.offset + self.items.len(),
                items: Seq::empty(),
                cursor: 0,
                phase: if self.more {
                    Phase::Fetching
                } else {
                    Phase::Finished
                },
                ..self
            },
            (Phase::Saving, EventView::OffsetSaved(Err(_))) => self.abort(Error::Storage),
            _ => self,
        }
    }

    /// What the engine waits for.
    pub open spec fn pending(self) -> ActionView {
        match self.phase {
            Phase::Fetching => ActionView::Fetch { offset: self.offset },
            Phase::Inserting => {
                let t = self.items[self.cursor]->0;
                ActionView::Insert {
                    spotify_id: t.spotify_id,
                    playlist_id: self.playlist_id,
                    name: t.name,
                    url: t.url,
                }
            },
            Phase::Saving => ActionView::SaveOffset {
                playlist_id: self.playlist_id,
                offset: self.offset + self.items.len(),
            },
            Phase::Finished => ActionView::Finish(
                SyncReport {
                    playlist_id: self.playlist_id as i32,
                    offset: self.offset as i32,
                    inserted: self.inserted as usize,
                },
            ),
            Phase::Aborted(error) => ActionView::Abort { error, offset: self.offset },
        }
    }
}

impl View for SyncEngine {
    type V = EngineView;

    closed spec fn view(&self) -> EngineView {
        EngineView {
            playlist_id: self.playlist_id as int,
            start: self.start as int,
            offset: self.offset as int,
            phase: self.phase,
            items: items_of(self.page@),
            cursor: self.cursor as int,
            more: self.more,
            inserted: self.inserted as int,
        }
    }
}

impl SyncEngine {
    /// The invariant of the engine, stated over its value.
    pub open spec fn wf(&self) -> bool {
        self@.wf()
    }

    /// An engine for the playlist, about to fetch the page at `offset`.
    pub fn new(playlist_id: i32, offset: i32) -> (r: SyncEngine)
        requires
            offset >= 0,
        ensures
            r.wf(),
            r@ == (EngineView {
                playlist_id: playlist_id as int,
                start: offset as int,
                offset: offset as int,
                phase: Phase::Fetching,
                items: Seq::empty(),
                cursor: 0,
                more: false,
                inserted: 0,
            }),
    {
        let r = SyncEngine {
            playlist_id,
            start: offset,
            offset,
            phase: Phase::Fetching,
            page: Vec::new(),
            cursor: 0,
            more: false,
            inserted: 0,
        };
        assert(items_of(r.page@) =~= Seq::empty());
        r
    }

    /// The last committed offset.
    pub fn offset(&self) -> (r: i32)
        ensures
            r == self@.offset,
    {
        self.offset
    }

    /// Where the run stands.
    pub fn phase(&self) -> (r: Phase)
        ensures
            r == self@.phase,
    {
        self.phase
    }

    /// The action that the engine waits for.
    pub fn pending(&self) -> (r: SyncAction)
        requires
            self.wf(),
        ensures
            r@ == self@.pending(),
    {
        match self.phase {
            Phase::Fetching => SyncAction::Fetch { offset: self.offset },
            Phase::Inserting => {
                let entry = &self.page[self.cursor];
                assert(items_of(self.page@)[self.cursor as int] == entry@);
                let t = entry.track.as_ref().unwrap();
                SyncAction::Insert {
                    spotify_id: t.spotify_id.clone(),
                    playlist_id: self.playlist_id,
                    name: t.name.clone(),
                    url: t.url.clone(),
                }
            },
            Phase::Saving => {
                assert(items_of(self.page@).len() == self.page@.len());
                let n = self.page.len();
                assert(n <= i32::MAX);
                SyncAction::SaveOffset {
                    playlist_id: self.playlist_id,
                    offset: self.offset + (n as i32),
                }
            },
            Phase::Finished => SyncAction::Finish(
                SyncReport {
                    playlist_id: self.playlist_id,
                    offset: self.offset,
                    inserted: self.inserted,
                },
            ),
            Phase::Aborted(error) => SyncAction::Abort { error, offset: self.offset },
        }
    }

    /// Moves the cursor from `from` to the next present entry and picks
    /// the phase that follows.
    #[verifier::loop_isolation(false)]
    fn settle(&mut self, from: usize)
        requires
            from <= old(self).page.len(),
            old(self)@.offset + old(self).page.len() <= i32::MAX,
            0 <= old(self)@.start <= old(self)@.offset,
            0 <= old(self)@.inserted <= old(self)@.offset - old(self)@.start + from,
        ensures
            final(self)@ == old(self)@.settle(from as int),
            final(self).wf(),
    {
        let ghost items = items_of(self.page@);
        let mut c = from;
        while c < self.page.len() && self.page[c].is_null()
            invariant
                from <= c <= self.page.len(),
                *self == *old(self),
                first_present(items, c as int) == first_present(items, from as int),
            decreases self.page.len() - c,
        {
            assert(items[c as int] == self.page@[c as int]@);
            c += 1;
        }
        proof {
            if c < self.page.len() {
                assert(items[c as int] == self.page@[c as int]@);
            }
            assert(first_present(items, c as int) == c);
        }
        self.cursor = c;
        self.phase = if c < self.page.len() {
            Phase::Inserting
        } else {
            Phase::Saving
        };
    }

    /// Takes the outcome of the action that was asked for and says what
    /// to do next.
    pub fn handle(&mut self, event: SyncEvent) -> (r: SyncAction)
        requires
            old(self).wf(),
        ensures
            final(self).wf(),
            final(self)@ == old(self)@.step(event@),
            r@ == final(self)@.pending(),
    {
        let phase = self.phase;
        match (phase, event) {
            (Phase::Fetching, SyncEvent::Page(page)) => {
                let n = page.tracks.len();
                assert(page.items().len() == n);
                if n > (i32::MAX - self.offset) as usize {
                    self.phase = Phase::Aborted(Error::Storage);
                } else {
                    self.more = page.next.is_some();
                    self.page = page.tracks;
                    self.cursor = 0;
                    self.settle(0);
                }
            },
            (Phase::Fetching, SyncEvent::FetchFailed) => {
                self.phase = Phase::Aborted(Error::Fetch);
            },
            (Phase::Inserting, SyncEvent::Stored(Ok(_))) => {
                assert(items_of(self.page@).len() == self.page@.len());
                self.inserted = self.inserted + 1;
                let from = self.cursor + 1;
                self.settle(from);
            },
            (Phase::Inserting, SyncEvent::Stored(Err(Error::DuplicateTrack))) => {
                assert(items_of(self.page@).len() == self.page@.len());
                let from = self.cursor + 1;
                self.settle(from);
            },
            (Phase::Inserting, SyncEvent::Stored(Err(_))) => {
                self.phase = Phase::Aborted(Error::Storage);
            },
            (Phase::Saving, SyncEvent::OffsetSaved(Ok(_))) => {
                assert(items_of(self.page@).len() == self.page@.len());
                let n = self.page.len();
                self.offset = self.offset + (n as i32);
                self.page = Vec::new();
                self.cursor = 0;
                self.phase = if self.more {
                    Phase::Fetching
                } else {
                    Phase::Finished
                };
                assert(items_of(self.page@) =~= Seq::empty());
            },
            (Phase::Saving, SyncEvent::OffsetSaved(Err(_))) => {
                self.phase = Phase::Aborted(Error::Storage);
            },
            _ => {},
        }
        self.pending()
    }
}

} // verus!
