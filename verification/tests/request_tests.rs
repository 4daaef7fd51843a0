use noiisseur::encoding::decimal;
use noiisseur::request::{
    authorize_url, basic_authorization, bearer_authorization, tracks_url, TokenRequest,
};

#[test]
fn authorize_url_lists_the_six_parameters_in_order() {
    assert_eq!(
        authorize_url("client123", "st4te"),
        "https://accounts.spotify.com/authorize?client_id=client123&response_type=code\
         &redirect_uri=http%3A%2F%2Flocalhost%3A8000%2Fauth&scope=playlist-read-private\
         &state=st4te&show_dialog=false"
    );
}

#[test]
fn authorize_url_encodes_what_it_is_given() {
    assert_eq!(
        authorize_url("a b&c", "x=y/z"),
        "https://accounts.spotify.com/authorize?client_id=a+b%26c&response_type=code\
         &redirect_uri=http%3A%2F%2Flocalhost%3A8000%2Fauth&scope=playlist-read-private\
         &state=x%3Dy%2Fz&show_dialog=false"
    );
}

#[test]
fn basic_authorization_encodes_id_and_secret() {
    assert_eq!(basic_authorization("id", "secret"), "Basic aWQ6c2VjcmV0");
    assert_eq!(basic_authorization("my-client", "s3cr3t!"), "Basic bXktY2xpZW50OnMzY3IzdCE=");
}

#[test]
fn exchange_request_trims_the_code() {
    let request = TokenRequest::exchange("id", "secret", "  AQD-code_1 \n");
    assert_eq!(request.url, "https://accounts.spotify.com/api/token");
    assert_eq!(request.authorization, "Basic aWQ6c2VjcmV0");
    assert_eq!(request.content_type, "application/x-www-form-urlencoded");
    assert_eq!(
        request.body,
        "grant_type=authorization_code&code=AQD-code_1\
         &redirect_uri=http%3A%2F%2Flocalhost%3A8000%2Fauth"
    );
}

#[test]
fn refresh_request_carries_the_refresh_token() {
    let request = TokenRequest::refresh("id", "secret", "r/t 1");
    assert_eq!(request.url, "https://accounts.spotify.com/api/token");
    assert_eq!(request.authorization, "Basic aWQ6c2VjcmV0");
    assert_eq!(request.content_type, "application/x-www-form-urlencoded");
    assert_eq!(request.body, "grant_type=refresh_token&refresh_token=r%2Ft+1");
}

#[test]
fn tracks_url_names_playlist_fields_and_offset() {
    assert_eq!(
        tracks_url("37i9dQZF1DX", 0),
        "https://api.spotify.com/v1/playlists/37i9dQZF1DX/tracks\
         ?fields=next,items(track(id,name,external_urls))&offset=0"
    );
    assert_eq!(
        tracks_url("37i9dQZF1DX", 40),
        "https://api.spotify.com/v1/playlists/37i9dQZF1DX/tracks\
         ?fields=next,items(track(id,name,external_urls))&offset=40"
    );
}

#[test]
fn decimal_writes_every_integer() {
    assert_eq!(decimal(0), "0");
    assert_eq!(decimal(7), "7");
    assert_eq!(decimal(10), "10");
    assert_eq!(decimal(1234567890), "1234567890");
    assert_eq!(decimal(-5), "-5");
    assert_eq!(decimal(i32::MAX), "2147483647");
    assert_eq!(decimal(i32::MIN), "-2147483648");
}

#[test]
fn bearer_authorization_prefixes_the_token() {
    assert_eq!(bearer_authorization("BQC-token"), "Bearer BQC-token");
}
