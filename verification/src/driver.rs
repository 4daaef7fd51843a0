use vstd::prelude::*;
use crate::error::Error;
use crate::remote::{RemotePlaylist, RemoteView};
use crate::store::{
    get_playlist_offset, insert_track, lemma_offset_of_reads_offsets, lemma_with_offset,
    lemma_with_track, update_playlist_offset, Store, StoreView,
};
use crate::sync::{
    lemma_page_from_skips_withdrawn, page_from, EngineView, Phase, SyncAction, SyncEngine,
    SyncEvent, SyncFailure, SyncReport,
};
use crate::track::SpotifyTrackInnerView;

verus! {

/// The store after a page went through, and how the run ends from there:
/// the offset moves past every entry of the page, withdrawn and duplicate
/// ones included, and the run goes on while the listing does.
pub open spec fn after_page(
    store: StoreView,
    playlist_id: int,
    remote: RemoteView,
    offset: int,
    count: int,
    more: bool,
) -> (StoreView, Option<Error>)
    decreases remote.entries.len() - offset, 0int,
{
    let committed = store.with_offset(playlist_id, offset + count);
    if more && count > 0 && offset + count <= remote.entries.len() {
        run_from(committed, playlist_id, remote, offset + count)
    } else {
        (committed, None)
    }
}

/// The store after a synchronisation that starts at `offset`, and the
/// error it stopped on, if any. Page after page is requested at the
/// committed offset; a failed request, or an insertion that the store
/// refuses for another reason than a duplicate, stops the run with the
/// offset where the last whole page left it.
pub open spec fn run_from(store: StoreView, playlist_id: int, remote: RemoteView, offset: int) -> (
    StoreView,
    Option<Error>,
)
    decreases remote.entries.len() - offset, 1int,
{
    if remote.fails_at(offset) {
        (store, Some(Error::Fetch))
    } else {
        let items = remote.page_at(offset);
        if offset + items.len() > i32::MAX {
            (store, Some(Error::Storage))
        } else {
            let (stored, ok) = page_from(store, playlist_id, items, 0);
            if !ok {
                (stored, Some(Error::Storage))
            } else {
                after_page(
                    stored,
                    playlist_id,
                    remote,
                    offset,
                    items.len() as int,
                    remote.more_after(offset),
                )
            }
        }
    }
}

/// How the run ends from where the engine and the store stand.
pub open spec fn outcome(engine: EngineView, store: StoreView, remote: RemoteView) -> (
    StoreView,
    Option<Error>,
) {
    match engine.phase {
        Phase::Fetching => run_from(store, engine.playlist_id, remote, engine.offset),
        Phase::Inserting | Phase::Saving => {
            let (stored, ok) = page_from(store, engine.playlist_id, engine.items, engine.cursor);
            if !ok {
                (stored, Some(Error::Storage))
            } else {
                after_page(
                    stored,
                    engine.playlist_id,
                    remote,
                    engine.offset,
                    engine.items.len() as int,
                    engine.more,
                )
            }
        },
        Phase::Finished => (store, None),
        Phase::Aborted(error) => (store, Some(error)),
    }
}

/// How far the engine is from the end of the run: the entries that are
/// left in the listing, the steps that are left in the page at hand.
pub open spec fn distance(engine: EngineView, remote: RemoteView) -> (int, int, int) {
    (
        if engine.offset < remote.entries.len() {
            remote.entries.len() - engine.offset
        } else {
            0
        },
        match engine.phase {
            Phase::Fetching => 3,
            Phase::Inserting => 2,
            Phase::Saving => 1,
            _ => 0,
        },
        engine.items.len() - engine.cursor,
    )
}

/// Synchronises one playlist from an in-memory listing into the store,
/// starting at the playlist's committed offset. A failure says where the
/// run stopped: at the offset that the store holds, from which the next
/// run goes on. A playlist without an offset row fails with offset zero
/// and changes nothing.
#[verifier::loop_isolation(false)]
pub fn sync(store: &mut Store, playlist_id: i32, remote: &RemotePlaylist) -> (r: Result<
    SyncReport,
    SyncFailure,
>)
    requires
        old(store).wf(),
        remote.wf(),
    ensures
        final(store).wf(),
        match old(store)@.offset_of(playlist_id as int) {
            None => r == Err::<SyncReport, SyncFailure>(
                SyncFailure { playlist_id, offset: 0, error: Error::Storage },
            ) && final(store)@ == old(store)@,
            Some(offset) => {
                let (stored, stopped) = run_from(old(store)@, playlist_id as int, remote@, offset);
                &&& final(store)@ == stored
                &&& match r {
                    Ok(report) => stopped is None && report.playlist_id == playlist_id
                        && stored.offset_of(playlist_id as int) == Some(report.offset as int)
                        && report.inserted == stored.tracks.len() - old(store)@.tracks.len(),
                    Err(failure) => stopped == Some(failure.error) && failure.playlist_id
                        == playlist_id && stored.offset_of(playlist_id as int) == Some(
                        failure.offset as int,
                    ),
                }
            },
        },
{
    let start = match get_playlist_offset(store, playlist_id) {
        Some(o) => o,
        None => {
            return Err(SyncFailure { playlist_id, offset: 0, error: Error::Storage });
        },
    };
    proof {
        let k = store@.offset_row(playlist_id as int);
        assert(0 <= store@.offsets[k].offset);
    }
    let ghost total = run_from(store@, playlist_id as int, remote@, start as int);
    let ghost before = store@.tracks.len();
    let mut engine = SyncEngine::new(playlist_id, start);
    let mut action = engine.pending();
    loop
        invariant
            store.wf(),
            engine.wf(),
            action@ == engine@.pending(),
            engine@.playlist_id == playlist_id,
            store@.offset_of(playlist_id as int) == Some(engine@.offset),
            engine@.phase == Phase::Inserting || engine@.phase == Phase::Saving ==> engine@.items
                == remote@.page_at(engine@.offset) && engine@.more == remote@.more_after(
                engine@.offset,
            ),
            outcome(engine@, store@, remote@) == total,
            engine@.phase == Phase::Inserting || engine@.phase == Phase::Saving ==> store@.tracks.len()
                - before == engine@.inserted,
            engine@.phase == Phase::Fetching || engine@.phase == Phase::Finished
                ==> store@.tracks.len() - before == engine@.inserted,
        decreases distance(engine@, remote@).0, distance(engine@, remote@).1, distance(engine@, remote@).2,
    {
        let ghost e0 = engine@;
        let ghost s0 = store@;
        match action {
            SyncAction::Fetch { offset } => {
                let event = match remote.fetch(offset) {
                    Ok(page) => SyncEvent::Page(page),
                    Err(_) => SyncEvent::FetchFailed,
                };
                proof {
                    lemma_page_from_skips_withdrawn(
                        s0,
                        playlist_id as int,
                        remote@.page_at(offset as int),
                        0,
                    );
                }
                action = engine.handle(event);
            },
            SyncAction::Insert { spotify_id, playlist_id: target, name, url } => {
                let stored = insert_track(
                    store,
                    spotify_id.as_str(),
                    target,
                    name.as_str(),
                    url.as_str(),
                );
                proof {
                    lemma_with_track(s0, spotify_id@, target as int, name@, url@);
                    lemma_offset_of_reads_offsets(s0, store@, playlist_id as int);
                    lemma_page_from_skips_withdrawn(
                        store@,
                        playlist_id as int,
                        e0.items,
                        e0.cursor + 1,
                    );
                }
                action = engine.handle(SyncEvent::Stored(stored));
            },
            SyncAction::SaveOffset { playlist_id: target, offset } => {
                proof {
                    lemma_with_offset(s0, playlist_id as int, offset as int);
                }
                let saved = update_playlist_offset(store, target, offset);
                action = engine.handle(SyncEvent::OffsetSaved(saved));
            },
            SyncAction::Finish(report) => {
                return Ok(report);
            },
            SyncAction::Abort { error, offset } => {
                return Err(SyncFailure { playlist_id, offset, error });
            },
        }
    }
}

/// A page keeps the store well formed, leaves playlists and offsets
/// alone, and loses no track: what was stored before is still the head
/// of what is stored after.
pub proof fn lemma_page_keeps_store(
    store: StoreView,
    playlist_id: int,
    items: Seq<Option<SpotifyTrackInnerView>>,
    from: int,
)
    requires
        store.wf(),
        0 <= from,
    ensures
        page_from(store, playlist_id, items, from).0.wf(),
        page_from(store, playlist_id, items, from).0.offsets == store.offsets,
        page_from(store, playlist_id, items, from).0.playlists == store.playlists,
        store.tracks.is_prefix_of(page_from(store, playlist_id, items, from).0.tracks),
    decreases items.len() - from,
{
    if from < items.len() {
        match items[from] {
            None => {
                lemma_page_keeps_store(store, playlist_id, items, from + 1);
            },
            Some(t) => {
                if store.track_refusal(t.spotify_id) != Some(Error::Storage) {
                    let next = store.with_track(t.spotify_id, playlist_id, t.name, t.url);
                    lemma_with_track(store, t.spotify_id, playlist_id, t.name, t.url);
                    lemma_page_keeps_store(next, playlist_id, items, from + 1);
                    assert(store.tracks.is_prefix_of(next.tracks));
                }
            },
        }
    }
}

/// After a page that went through, every present entry of the page is
/// stored, whether this page stored it or it was known before.
pub proof fn lemma_page_stores_present_entries(
    store: StoreView,
    playlist_id: int,
    items: Seq<Option<SpotifyTrackInnerView>>,
    from: int,
    i: int,
)
    requires
        store.wf(),
        0 <= from <= i < items.len(),
        items[i] is Some,
        page_from(store, playlist_id, items, from).1,
    ensures
        page_from(store, playlist_id, items, from).0.has_track(items[i]->0.spotify_id),
    decreases items.len() - from,
{
    match items[from] {
        None => {
            lemma_page_stores_present_entries(store, playlist_id, items, from + 1, i);
        },
        Some(t) => {
            let next = store.with_track(t.spotify_id, playlist_id, t.name, t.url);
            lemma_with_track(store, t.spotify_id, playlist_id, t.name, t.url);
            if from < i {
                lemma_page_stores_present_entries(next, playlist_id, items, from + 1, i);
            } else {
                lemma_page_keeps_store(next, playlist_id, items, from + 1);
                let last = page_from(next, playlist_id, items, from + 1).0;
                let k = choose|k: int|
                    0 <= k < next.tracks.len() && #[trigger] next.tracks[k].spotify_id
                        == t.spotify_id;
                assert(last.tracks[k] == next.tracks[k]);
            }
        },
    }
}

/// A page whose present entries are all stored already, under whatever
/// playlist, goes through and changes nothing: duplicates are skipped,
/// they do not stop the page.
pub proof fn lemma_known_tracks_are_skipped(
    store: StoreView,
    playlist_id: int,
    items: Seq<Option<SpotifyTrackInnerView>>,
    from: int,
)
    requires
        0 <= from,
        forall|i: int|
            from <= i < items.len() && items[i] is Some ==> store.has_track(
                (#[trigger] items[i])->0.spotify_id,
            ),
    ensures
        page_from(store, playlist_id, items, from) == (store, true),
    decreases items.len() - from,
{
    if from < items.len() {
        lemma_known_tracks_are_skipped(store, playlist_id, items, from + 1);
        match items[from] {
            None => {},
            Some(t) => {
                assert(store.has_track(t.spotify_id));
            },
        }
    }
}

/// A run keeps the store well formed and the playlists alone, and never
/// moves the offset back. Where it ends without error, the offset has
/// reached the end of the listing. Where it stops on a failed request,
/// the committed offset is the one whose page was asked for: a later run
/// asks for that page again.
pub proof fn lemma_run_commits_whole_pages(
    store: StoreView,
    playlist_id: int,
    remote: RemoteView,
    offset: int,
)
    requires
        store.wf(),
        store.offset_of(playlist_id) == Some(offset),
        remote.page_size > 0,
    ensures
        ({
            let (stored, stopped) = run_from(store, playlist_id, remote, offset);
            &&& stored.wf()
            &&& stored.playlists == store.playlists
            &&& store.tracks.is_prefix_of(stored.tracks)
            &&& stored.has_offset(playlist_id)
            &&& stored.offset_of(playlist_id)->0 >= offset
            &&& stopped is None ==> stored.offset_of(playlist_id)->0 >= remote.entries.len()
            &&& stopped == Some(Error::Fetch) ==> remote.fails_at(stored.offset_of(playlist_id)->0)
            &&& stopped is None || stopped == Some(Error::Fetch) || stopped == Some(Error::Storage)
        }),
    decreases remote.entries.len() - offset,
{
    let k = store.offset_row(playlist_id);
    assert(0 <= store.offsets[k].offset);
    if !remote.fails_at(offset) {
        let items = remote.page_at(offset);
        if offset + items.len() <= i32::MAX {
            let (paged, ok) = page_from(store, playlist_id, items, 0);
            lemma_page_keeps_store(store, playlist_id, items, 0);
            lemma_offset_of_reads_offsets(store, paged, playlist_id);
            if ok {
                let count = items.len() as int;
                let committed = paged.with_offset(playlist_id, offset + count);
                lemma_with_offset(paged, playlist_id, offset + count);
                assert(store.tracks.is_prefix_of(committed.tracks));
                if remote.more_after(offset) && count > 0 && offset + count
                    <= remote.entries.len() {
                    lemma_run_commits_whole_pages(committed, playlist_id, remote, offset + count);
                    let last = run_from(committed, playlist_id, remote, offset + count).0;
                    assert(store.tracks.is_prefix_of(last.tracks));
                }
            }
        }
    }
}

/// Synchronising again from an unchanged listing changes nothing: after a
/// run that ended without error, a second run leaves the stored tracks,
/// the playlists and every offset as they are.
pub proof fn lemma_sync_again_changes_nothing(
    store: StoreView,
    playlist_id: int,
    remote: RemoteView,
)
    requires
        store.wf(),
        store.has_offset(playlist_id),
        remote.page_size > 0,
        run_from(store, playlist_id, remote, store.offset_of(playlist_id)->0).1 is None,
    ensures
        ({
            let once = run_from(store, playlist_id, remote, store.offset_of(playlist_id)->0).0;
            let again = run_from(once, playlist_id, remote, once.offset_of(playlist_id)->0);
            &&& again.0 == once
            &&& remote.failing_offset is None ==> again.1 is None
        }),
{
    let offset = store.offset_of(playlist_id)->0;
    lemma_run_commits_whole_pages(store, playlist_id, remote, offset);
    let once = run_from(store, playlist_id, remote, offset).0;
    let reached = once.offset_of(playlist_id)->0;
    let k = once.offset_row(playlist_id);
    assert(once.offsets[k].offset <= i32::MAX);
    if !remote.fails_at(reached) {
        assert(remote.page_at(reached) =~= Seq::empty());
        assert(page_from(once, playlist_id, remote.page_at(reached), 0) == (once, true));
        lemma_with_offset(once, playlist_id, reached);
    }
}

} // verus!
