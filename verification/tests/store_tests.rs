use noiisseur::error::Error;
use noiisseur::models::{NewPlaylist, NewPlaylistOffset, NewTrack, Playlist, PlaylistOffset, Track};
use noiisseur::store::{
    add_playlist, delete_track, get_playlist_offset, get_playlists, get_tracks, insert_playlist,
    insert_playlist_offset, insert_track, mark_track_as_posted, update_playlist_offset, Store,
};

#[test]
fn insert_track_stores_an_unposted_row() {
    let mut store = Store::new();
    assert_eq!(insert_track(&mut store, "sp1", 7, "Song", "https://open/sp1"), Ok(1));
    let tracks = store.all_tracks();
    assert_eq!(
        tracks,
        vec![Track {
            id: 1,
            spotify_id: "sp1".to_string(),
            playlist_id: 7,
            name: "Song".to_string(),
            url: "https://open/sp1".to_string(),
            posted: 0,
        }]
    );
}

#[test]
fn insert_track_numbers_rows_in_order() {
    let mut store = Store::new();
    assert_eq!(insert_track(&mut store, "a", 1, "A", "ua"), Ok(1));
    assert_eq!(insert_track(&mut store, "b", 1, "B", "ub"), Ok(1));
    assert_eq!(insert_track(&mut store, "c", 2, "C", "uc"), Ok(1));
    let ids: Vec<i32> = store.all_tracks().iter().map(|t| t.id).collect();
    assert_eq!(ids, vec![1, 2, 3]);
}

#[test]
fn insert_track_refuses_a_known_remote_identifier() {
    let mut store = Store::new();
    assert_eq!(insert_track(&mut store, "a", 1, "A", "ua"), Ok(1));
    assert_eq!(insert_track(&mut store, "a", 2, "Other", "other"), Err(Error::DuplicateTrack));
    let tracks = store.all_tracks();
    assert_eq!(tracks.len(), 1);
    assert_eq!(tracks[0].playlist_id, 1);
    assert_eq!(tracks[0].name, "A");
}

#[test]
fn delete_track_removes_the_row_with_the_identifier() {
    let mut store = Store::new();
    insert_track(&mut store, "a", 1, "A", "ua").unwrap();
    insert_track(&mut store, "b", 1, "B", "ub").unwrap();
    insert_track(&mut store, "c", 1, "C", "uc").unwrap();
    delete_track(&mut store, 2);
    let left: Vec<String> = store.all_tracks().iter().map(|t| t.spotify_id.clone()).collect();
    assert_eq!(left, vec!["a".to_string(), "c".to_string()]);
    delete_track(&mut store, 2);
    delete_track(&mut store, 99);
    assert_eq!(store.all_tracks().len(), 2);
}

#[test]
fn deleted_last_identifier_is_given_again() {
    let mut store = Store::new();
    insert_track(&mut store, "a", 1, "A", "ua").unwrap();
    insert_track(&mut store, "b", 1, "B", "ub").unwrap();
    delete_track(&mut store, 2);
    insert_track(&mut store, "c", 1, "C", "uc").unwrap();
    let ids: Vec<i32> = store.all_tracks().iter().map(|t| t.id).collect();
    assert_eq!(ids, vec![1, 2]);
}

#[test]
fn get_tracks_lists_what_was_not_posted() {
    let mut store = Store::new();
    insert_track(&mut store, "a", 1, "A", "ua").unwrap();
    insert_track(&mut store, "b", 1, "B", "ub").unwrap();
    insert_track(&mut store, "c", 1, "C", "uc").unwrap();
    let all = store.all_tracks();
    mark_track_as_posted(&mut store, &all[1]);
    let eligible: Vec<String> = get_tracks(&store).iter().map(|t| t.spotify_id.clone()).collect();
    assert_eq!(eligible, vec!["a".to_string(), "c".to_string()]);
    let all = store.all_tracks();
    assert_eq!(all[1].posted, 1);
    assert_eq!(all[0].posted, 0);
    assert_eq!(all[2].posted, 0);
}

#[test]
fn mark_track_as_posted_ignores_an_unknown_track() {
    let mut store = Store::new();
    insert_track(&mut store, "a", 1, "A", "ua").unwrap();
    let unknown = Track {
        id: 5,
        spotify_id: "zz".to_string(),
        playlist_id: 1,
        name: "Z".to_string(),
        url: "uz".to_string(),
        posted: 0,
    };
    mark_track_as_posted(&mut store, &unknown);
    assert_eq!(get_tracks(&store).len(), 1);
}

#[test]
fn insert_playlist_returns_growing_identifiers() {
    let mut store = Store::new();
    assert_eq!(insert_playlist(&mut store, "Morning", "pl1"), Ok(1));
    assert_eq!(insert_playlist(&mut store, "Evening", "pl2"), Ok(2));
    assert_eq!(
        get_playlists(&store),
        vec![
            Playlist { id: 1, spotify_id: "pl1".to_string(), name: "Morning".to_string() },
            Playlist { id: 2, spotify_id: "pl2".to_string(), name: "Evening".to_string() },
        ]
    );
}

#[test]
fn insert_playlist_refuses_a_registered_remote_identifier() {
    let mut store = Store::new();
    assert_eq!(insert_playlist(&mut store, "Morning", "pl1"), Ok(1));
    assert_eq!(insert_playlist(&mut store, "Again", "pl1"), Err(Error::Storage));
    assert_eq!(get_playlists(&store).len(), 1);
}

#[test]
fn playlist_offset_starts_where_it_is_inserted() {
    let mut store = Store::new();
    assert_eq!(get_playlist_offset(&store, 1), None);
    assert_eq!(insert_playlist_offset(&mut store, 1, 0), Ok(()));
    assert_eq!(get_playlist_offset(&store, 1), Some(0));
    assert_eq!(insert_playlist_offset(&mut store, 2, 15), Ok(()));
    assert_eq!(get_playlist_offset(&store, 2), Some(15));
    assert_eq!(get_playlist_offset(&store, 1), Some(0));
}

#[test]
fn playlist_has_one_offset_row() {
    let mut store = Store::new();
    assert_eq!(insert_playlist_offset(&mut store, 1, 0), Ok(()));
    assert_eq!(insert_playlist_offset(&mut store, 1, 5), Err(Error::Storage));
    assert_eq!(get_playlist_offset(&store, 1), Some(0));
}

#[test]
fn negative_offset_is_refused() {
    let mut store = Store::new();
    assert_eq!(insert_playlist_offset(&mut store, 1, -1), Err(Error::Storage));
    assert_eq!(get_playlist_offset(&store, 1), None);
}

#[test]
fn offset_only_moves_forward() {
    let mut store = Store::new();
    insert_playlist_offset(&mut store, 1, 0).unwrap();
    insert_playlist_offset(&mut store, 2, 0).unwrap();
    assert_eq!(update_playlist_offset(&mut store, 1, 20), Ok(()));
    assert_eq!(get_playlist_offset(&store, 1), Some(20));
    assert_eq!(get_playlist_offset(&store, 2), Some(0));
    assert_eq!(update_playlist_offset(&mut store, 1, 20), Ok(()));
    assert_eq!(update_playlist_offset(&mut store, 1, 19), Err(Error::Storage));
    assert_eq!(get_playlist_offset(&store, 1), Some(20));
}

#[test]
fn offset_of_an_unknown_playlist_cannot_be_updated() {
    let mut store = Store::new();
    assert_eq!(update_playlist_offset(&mut store, 3, 20), Err(Error::Storage));
    assert_eq!(get_playlist_offset(&store, 3), None);
}

#[test]
fn new_rows_are_plain_values() {
    let t = NewTrack { spotify_id: "a", playlist_id: 1, name: "A", url: "ua" };
    assert_eq!(t, NewTrack { spotify_id: "a", playlist_id: 1, name: "A", url: "ua" });
    let p = NewPlaylist { name: "Morning", spotify_id: "pl1" };
    assert_eq!(p.name, "Morning");
    let o = NewPlaylistOffset { offset: 0, playlist_id: 1 };
    assert_eq!(o.offset, 0);
    let row = PlaylistOffset { id: 1, offset: 0, playlist_id: 1 };
    assert_eq!(row.playlist_id, o.playlist_id);
}

#[test]
fn only_a_duplicate_is_not_fatal() {
    assert!(!Error::DuplicateTrack.is_fatal());
    assert!(Error::Storage.is_fatal());
    assert!(Error::Fetch.is_fatal());
    assert!(Error::Auth.is_fatal());
    assert!(Error::InvalidOAuthState.is_fatal());
}

#[test]
fn invalid_state_has_its_message() {
    assert_eq!(Error::InvalidOAuthState.message(), "Invalid OAuth state parameter");
}

#[test]
fn added_playlist_starts_at_offset_zero() {
    let mut store = Store::new();
    assert_eq!(add_playlist(&mut store, "Morning", "pl1"), Ok(1));
    assert_eq!(add_playlist(&mut store, "Evening", "pl2"), Ok(2));
    assert_eq!(get_playlist_offset(&store, 1), Some(0));
    assert_eq!(get_playlist_offset(&store, 2), Some(0));
    assert_eq!(add_playlist(&mut store, "Morning", "pl1"), Err(Error::Storage));
    assert_eq!(get_playlists(&store).len(), 2);
}

#[test]
fn playlist_whose_offset_row_exists_is_listed_without_a_second_row() {
    let mut store = Store::new();
    insert_playlist_offset(&mut store, 1, 8).unwrap();
    assert_eq!(add_playlist(&mut store, "Morning", "pl1"), Err(Error::Storage));
    assert_eq!(get_playlists(&store).len(), 1);
    assert_eq!(get_playlist_offset(&store, 1), Some(8));
}
