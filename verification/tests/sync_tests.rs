use noiisseur::driver::sync;
use noiisseur::error::Error;
use noiisseur::remote::{get_tracks, RemotePlaylist};
use noiisseur::store::{
    get_playlist_offset, insert_playlist, insert_playlist_offset, insert_track, Store,
};
use noiisseur::sync::{Phase, SyncAction, SyncEngine, SyncEvent, SyncFailure, SyncReport};
use noiisseur::track::{SpotifyTrack, SpotifyTrackPage};

fn entry(id: &str) -> SpotifyTrack {
    SpotifyTrack::present(id.to_string(), format!("Song {}", id), format!("https://open/{}", id))
}

fn listing(count: usize) -> Vec<SpotifyTrack> {
    (0..count).map(|i| entry(&format!("t{}", i))).collect()
}

fn registered(store: &mut Store, name: &str, spotify_id: &str) -> i32 {
    let id = insert_playlist(store, name, spotify_id).unwrap();
    insert_playlist_offset(store, id, 0).unwrap();
    id
}

fn stored_ids(store: &Store) -> Vec<String> {
    store.all_tracks().iter().map(|t| t.spotify_id.clone()).collect()
}

#[test]
fn entry_accessors_follow_the_catalog_item() {
    let present = entry("abc");
    assert!(!present.is_null());
    assert_eq!(present.spotify_id(), Some("abc".to_string()));
    assert_eq!(present.name(), Some("Song abc".to_string()));
    assert_eq!(present.url(), Some("https://open/abc".to_string()));
    let withdrawn = SpotifyTrack::withdrawn();
    assert!(withdrawn.is_null());
    assert_eq!(withdrawn.spotify_id(), None);
    assert_eq!(withdrawn.name(), None);
    assert_eq!(withdrawn.url(), None);
}

#[test]
fn withdrawn_entry_between_two_tracks_counts_for_the_offset() {
    let mut store = Store::new();
    let id = registered(&mut store, "Morning", "pl1");
    let remote =
        RemotePlaylist::new("pl1".to_string(), vec![entry("a"), SpotifyTrack::withdrawn(), entry("b")], 50);
    let report = sync(&mut store, id, &remote).unwrap();
    assert_eq!(report, SyncReport { playlist_id: id, offset: 3, inserted: 2 });
    assert_eq!(stored_ids(&store), vec!["a".to_string(), "b".to_string()]);
    assert_eq!(get_playlist_offset(&store, id), Some(3));
}

#[test]
fn track_of_two_playlists_is_stored_once_and_both_offsets_advance() {
    let mut store = Store::new();
    let first = registered(&mut store, "Morning", "pl1");
    let second = registered(&mut store, "Evening", "pl2");
    let morning = RemotePlaylist::new("pl1".to_string(), vec![entry("shared"), entry("a")], 50);
    let evening = RemotePlaylist::new("pl2".to_string(), vec![entry("b"), entry("shared")], 50);
    assert_eq!(
        sync(&mut store, first, &morning),
        Ok(SyncReport { playlist_id: first, offset: 2, inserted: 2 })
    );
    assert_eq!(
        sync(&mut store, second, &evening),
        Ok(SyncReport { playlist_id: second, offset: 2, inserted: 1 })
    );
    assert_eq!(stored_ids(&store), vec!["shared".to_string(), "a".to_string(), "b".to_string()]);
    assert_eq!(get_playlist_offset(&store, first), Some(2));
    assert_eq!(get_playlist_offset(&store, second), Some(2));
    let shared = &store.all_tracks()[0];
    assert_eq!(shared.playlist_id, first);
}

#[test]
fn second_insertion_of_a_track_is_reported_as_duplicate() {
    let mut store = Store::new();
    assert_eq!(insert_track(&mut store, "shared", 1, "S", "u"), Ok(1));
    assert_eq!(insert_track(&mut store, "shared", 2, "S", "u"), Err(Error::DuplicateTrack));
}

#[test]
fn sync_again_changes_nothing() {
    let mut store = Store::new();
    let id = registered(&mut store, "Morning", "pl1");
    let remote = RemotePlaylist::new("pl1".to_string(), listing(45), 20);
    assert_eq!(
        sync(&mut store, id, &remote),
        Ok(SyncReport { playlist_id: id, offset: 45, inserted: 45 })
    );
    let tracks = store.all_tracks();
    assert_eq!(
        sync(&mut store, id, &remote),
        Ok(SyncReport { playlist_id: id, offset: 45, inserted: 0 })
    );
    assert_eq!(store.all_tracks(), tracks);
    assert_eq!(get_playlist_offset(&store, id), Some(45));
}

#[test]
fn failed_fetch_keeps_the_pages_that_were_committed() {
    let mut store = Store::new();
    let id = registered(&mut store, "Morning", "pl1");
    let mut remote = RemotePlaylist::new("pl1".to_string(), listing(70), 20);
    remote.failing_offset = Some(40);
    assert_eq!(
        sync(&mut store, id, &remote),
        Err(SyncFailure { playlist_id: id, offset: 40, error: Error::Fetch })
    );
    assert_eq!(get_playlist_offset(&store, id), Some(40));
    assert_eq!(store.all_tracks().len(), 40);
    remote.failing_offset = None;
    let mut engine = SyncEngine::new(id, get_playlist_offset(&store, id).unwrap());
    assert_eq!(engine.pending(), SyncAction::Fetch { offset: 40 });
    assert_eq!(
        engine.handle(SyncEvent::FetchFailed),
        SyncAction::Abort { error: Error::Fetch, offset: 40 }
    );
    assert_eq!(
        sync(&mut store, id, &remote),
        Ok(SyncReport { playlist_id: id, offset: 70, inserted: 30 })
    );
    let every: Vec<String> = listing(70).iter().map(|t| t.spotify_id().unwrap()).collect();
    assert_eq!(stored_ids(&store), every);
}

#[test]
fn sync_resumes_from_the_stored_offset() {
    let mut store = Store::new();
    let id = insert_playlist(&mut store, "Morning", "pl1").unwrap();
    insert_playlist_offset(&mut store, id, 3).unwrap();
    let remote = RemotePlaylist::new("pl1".to_string(), listing(5), 2);
    assert_eq!(
        sync(&mut store, id, &remote),
        Ok(SyncReport { playlist_id: id, offset: 5, inserted: 2 })
    );
    assert_eq!(stored_ids(&store), vec!["t3".to_string(), "t4".to_string()]);
}

#[test]
fn sync_of_an_unregistered_playlist_is_a_storage_error() {
    let mut store = Store::new();
    let remote = RemotePlaylist::new("pl1".to_string(), listing(5), 2);
    assert_eq!(
        sync(&mut store, 9, &remote),
        Err(SyncFailure { playlist_id: 9, offset: 0, error: Error::Storage })
    );
    assert_eq!(store.all_tracks().len(), 0);
}

#[test]
fn sync_of_an_empty_listing_stores_nothing() {
    let mut store = Store::new();
    let id = registered(&mut store, "Morning", "pl1");
    let remote = RemotePlaylist::new("pl1".to_string(), vec![], 20);
    assert_eq!(
        sync(&mut store, id, &remote),
        Ok(SyncReport { playlist_id: id, offset: 0, inserted: 0 })
    );
}

#[test]
fn remote_serves_pages_of_the_given_size() {
    let remote = RemotePlaylist::new("pl1".to_string(), listing(5), 2);
    let first = remote.fetch(0).unwrap();
    assert_eq!(first.tracks, vec![entry("t0"), entry("t1")]);
    assert_eq!(
        first.next,
        Some(
            "https://api.spotify.com/v1/playlists/pl1/tracks\
             ?fields=next,items(track(id,name,external_urls))&offset=2"
                .to_string()
        )
    );
    let last = remote.fetch(4).unwrap();
    assert_eq!(last.tracks, vec![entry("t4")]);
    assert!(last.next.is_none());
    let exact = remote.fetch(3).unwrap();
    assert_eq!(exact.tracks.len(), 2);
    assert!(exact.next.is_none());
    let beyond = remote.fetch(5).unwrap();
    assert!(beyond.tracks.is_empty());
    assert!(beyond.next.is_none());
    assert!(remote.fetch(-1).unwrap().tracks.is_empty());
}

#[test]
fn engine_walks_a_page_entry_by_entry() {
    let mut engine = SyncEngine::new(4, 10);
    assert_eq!(engine.phase(), Phase::Fetching);
    assert_eq!(engine.pending(), SyncAction::Fetch { offset: 10 });
    let page = SpotifyTrackPage {
        tracks: vec![SpotifyTrack::withdrawn(), entry("a"), SpotifyTrack::withdrawn(), entry("b")],
        next: None,
    };
    assert_eq!(
        engine.handle(SyncEvent::Page(page)),
        SyncAction::Insert {
            spotify_id: "a".to_string(),
            playlist_id: 4,
            name: "Song a".to_string(),
            url: "https://open/a".to_string(),
        }
    );
    assert_eq!(engine.phase(), Phase::Inserting);
    assert_eq!(
        engine.handle(SyncEvent::Stored(Err(Error::DuplicateTrack))),
        SyncAction::Insert {
            spotify_id: "b".to_string(),
            playlist_id: 4,
            name: "Song b".to_string(),
            url: "https://open/b".to_string(),
        }
    );
    assert_eq!(
        engine.handle(SyncEvent::Stored(Ok(1))),
        SyncAction::SaveOffset { playlist_id: 4, offset: 14 }
    );
    assert_eq!(engine.offset(), 10);
    assert_eq!(
        engine.handle(SyncEvent::OffsetSaved(Ok(()))),
        SyncAction::Finish(SyncReport { playlist_id: 4, offset: 14, inserted: 1 })
    );
    assert_eq!(engine.phase(), Phase::Finished);
    assert_eq!(engine.offset(), 14);
}

#[test]
fn engine_fetches_on_while_the_listing_goes_on() {
    let mut engine = SyncEngine::new(1, 0);
    let page = SpotifyTrackPage { tracks: vec![SpotifyTrack::withdrawn()], next: Some("more".to_string()) };
    assert_eq!(engine.handle(SyncEvent::Page(page)), SyncAction::SaveOffset { playlist_id: 1, offset: 1 });
    assert_eq!(engine.handle(SyncEvent::OffsetSaved(Ok(()))), SyncAction::Fetch { offset: 1 });
}

#[test]
fn engine_stops_on_a_storage_failure_without_moving_the_offset() {
    let mut engine = SyncEngine::new(1, 20);
    let page = SpotifyTrackPage { tracks: vec![entry("a"), entry("b")], next: None };
    engine.handle(SyncEvent::Page(page));
    assert_eq!(
        engine.handle(SyncEvent::Stored(Err(Error::Storage))),
        SyncAction::Abort { error: Error::Storage, offset: 20 }
    );
    assert_eq!(engine.phase(), Phase::Aborted(Error::Storage));
    assert_eq!(
        engine.handle(SyncEvent::Stored(Ok(1))),
        SyncAction::Abort { error: Error::Storage, offset: 20 }
    );
}

#[test]
fn engine_stops_when_the_offset_cannot_be_saved() {
    let mut engine = SyncEngine::new(1, 0);
    engine.handle(SyncEvent::Page(SpotifyTrackPage { tracks: vec![], next: None }));
    assert_eq!(
        engine.handle(SyncEvent::OffsetSaved(Err(Error::Storage))),
        SyncAction::Abort { error: Error::Storage, offset: 0 }
    );
}

#[test]
fn engine_ignores_an_event_out_of_turn() {
    let mut engine = SyncEngine::new(1, 0);
    assert_eq!(engine.handle(SyncEvent::Stored(Ok(1))), SyncAction::Fetch { offset: 0 });
    assert_eq!(engine.handle(SyncEvent::OffsetSaved(Ok(()))), SyncAction::Fetch { offset: 0 });
    assert_eq!(engine.phase(), Phase::Fetching);
}

#[test]
fn engine_refuses_a_page_that_would_carry_the_offset_too_far() {
    let mut engine = SyncEngine::new(1, i32::MAX);
    let page = SpotifyTrackPage { tracks: vec![entry("a")], next: None };
    assert_eq!(
        engine.handle(SyncEvent::Page(page)),
        SyncAction::Abort { error: Error::Storage, offset: i32::MAX }
    );
}

#[test]
fn get_tracks_gathers_every_page_from_the_offset() {
    let remote = RemotePlaylist::new("pl1".to_string(), listing(7), 3);
    assert_eq!(get_tracks(&remote, 0), Ok(listing(7)));
    assert_eq!(get_tracks(&remote, 5), Ok(vec![entry("t5"), entry("t6")]));
    assert_eq!(get_tracks(&remote, 7), Ok(vec![]));
    assert_eq!(get_tracks(&remote, 12), Ok(vec![]));
}

#[test]
fn get_tracks_fails_when_one_page_fails() {
    let mut remote = RemotePlaylist::new("pl1".to_string(), listing(7), 3);
    remote.failing_offset = Some(6);
    assert_eq!(get_tracks(&remote, 0), Err(Error::Fetch));
    assert_eq!(get_tracks(&remote, 3), Err(Error::Fetch));
    assert_eq!(get_tracks(&remote, 4), Ok(vec![entry("t4"), entry("t5"), entry("t6")]));
}

#[test]
fn failed_first_fetch_stops_at_the_stored_offset() {
    let mut store = Store::new();
    let id = insert_playlist(&mut store, "Morning", "pl1").unwrap();
    insert_playlist_offset(&mut store, id, 20).unwrap();
    let mut remote = RemotePlaylist::new("pl1".to_string(), listing(70), 20);
    remote.failing_offset = Some(20);
    assert_eq!(
        sync(&mut store, id, &remote),
        Err(SyncFailure { playlist_id: id, offset: 20, error: Error::Fetch })
    );
    assert_eq!(store.all_tracks().len(), 0);
}
