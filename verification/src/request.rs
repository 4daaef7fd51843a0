use vstd::prelude::*;
use crate::encoding::{
    append_pair, base64_standard, base64_text, decimal, decimal_text, joined, trimmed,
    trimmed_text, with_pair,
};

verus! {

/// Where the user grants access.
pub const SPOTIFY_AUTH_URL: &'static str = "https://accounts.spotify.com/authorize";

/// Where codes and refresh tokens are exchanged for access tokens.
pub const SPOTIFY_TOKEN_URL: &'static str = "https://accounts.spotify.com/api/token";

/// The kind of answer that the authorization page is asked for.
pub const RESPONSE_TYPE: &'static str = "code";

/// The access that is asked for.
pub const SCOPE: &'static str = "playlist-read-private";

/// Where the authorization page sends the user back to.
pub const REDIRECT_URI: &'static str = "http://localhost:8000/auth";

/// The content type of a request to the token endpoint.
pub const FORM_CONTENT_TYPE: &'static str = "application/x-www-form-urlencoded";

/// The query of the authorization page: client, response type, redirect
/// address, scope, state, and no forced dialog, in this order.
pub open spec fn authorize_query(client_id: Seq<char>, state: Seq<char>) -> Seq<char> {
    with_pair(
        with_pair(
            with_pair(
                with_pair(
                    with_pair(
                        with_pair(Seq::empty(), "client_id"@, client_id),
                        "response_type"@,
                        RESPONSE_TYPE@,
                    ),
                    "redirect_uri"@,
                    REDIRECT_URI@,
                ),
                "scope"@,
                SCOPE@,
            ),
            "state"@,
            state,
        ),
        "show_dialog"@,
        "false"@,
    )
}

/// The address of the authorization page for one attempt.
pub open spec fn authorize_url_text(client_id: Seq<char>, state: Seq<char>) -> Seq<char> {
    SPOTIFY_AUTH_URL@ + "?"@ + authorize_query(client_id, state)
}

/// The address to open in the browser for an authentication attempt that
/// is bound to `state`.
pub fn authorize_url(client_id: &str, state: &str) -> (r: String)
    ensures
        r@ == authorize_url_text(client_id@, state@),
{
    let q = append_pair(String::new(), "client_id", client_id);
    let q = append_pair(q, "response_type", RESPONSE_TYPE);
    let q = append_pair(q, "redirect_uri", REDIRECT_URI);
    let q = append_pair(q, "scope", SCOPE);
    let q = append_pair(q, "state", state);
    let q = append_pair(q, "show_dialog", "false");
    let mut url = joined(SPOTIFY_AUTH_URL, "?");
    url.append(q.as_str());
    url
}

/// The value of the `Authorization` header for the token endpoint:
/// `Basic`, a space, and the base64 form of `client_id:client_secret`.
pub open spec fn basic_authorization_text(client_id: Seq<char>, client_secret: Seq<char>) -> Seq<
    char,
> {
    "Basic "@ + base64_text(client_id + ":"@ + client_secret)
}

/// The HTTP Basic credentials of the client.
pub fn basic_authorization(client_id: &str, client_secret: &str) -> (r: String)
    ensures
        r@ == basic_authorization_text(client_id@, client_secret@),
{
    let mut pair = joined(client_id, ":");
    pair.append(client_secret);
    let encoded = base64_standard(pair.as_str());
    joined("Basic ", encoded.as_str())
}

/// The body that exchanges an authorization code: the grant type, the
/// code without the white space around it, and the redirect address.
pub open spec fn code_body_text(code: Seq<char>) -> Seq<char> {
    with_pair(
        with_pair(
            with_pair(Seq::empty(), "grant_type"@, "authorization_code"@),
            "code"@,
            trimmed_text(code),
        ),
        "redirect_uri"@,
        REDIRECT_URI@,
    )
}

/// The body that asks for a new access token: the grant type and the
/// refresh token.
pub open spec fn refresh_body_text(refresh_token: Seq<char>) -> Seq<char> {
    with_pair(
        with_pair(Seq::empty(), "grant_type"@, "refresh_token"@),
        "refresh_token"@,
        refresh_token,
    )
}

/// A request to the token endpoint, ready to be posted.
#[derive(Debug, Clone, PartialEq, Eq)]
pub struct TokenRequest {
    pub url: String,
    pub authorization: String,
    pub content_type: String,
    pub body: String,
}

impl TokenRequest {
    /// Whether this is the request to the token endpoint that carries
    /// `body` under the credentials of the client.
    pub open spec fn carries(
        &self,
        client_id: Seq<char>,
        client_secret: Seq<char>,
        body: Seq<char>,
    ) -> bool {
        &&& self.url@ == SPOTIFY_TOKEN_URL@
        &&& self.authorization@ == basic_authorization_text(client_id, client_secret)
        &&& self.content_type@ == FORM_CONTENT_TYPE@
        &&& self.body@ == body
    }

    /// The request that exchanges an authorization code for tokens.
    pub fn exchange(client_id: &str, client_secret: &str, code: &str) -> (r: TokenRequest)
        ensures
            r.carries(client_id@, client_secret@, code_body_text(code@)),
    {
        let body = append_pair(String::new(), "grant_type", "authorization_code");
        let body = append_pair(body, "code", trimmed(code));
        let body = append_pair(body, "redirect_uri", REDIRECT_URI);
        TokenRequest {
            url: SPOTIFY_TOKEN_URL.to_owned(),
            authorization: basic_authorization(client_id, client_secret),
            content_type: FORM_CONTENT_TYPE.to_owned(),
            body,
        }
    }

    /// The request that exchanges a refresh token for a new access token.
    pub fn refresh(client_id: &str, client_secret: &str, refresh_token: &str) -> (r: TokenRequest)
        ensures
            r.carries(client_id@, client_secret@, refresh_body_text(refresh_token@)),
    {
        let body = append_pair(String::new(), "grant_type", "refresh_token");
        let body = append_pair(body, "refresh_token", refresh_token);
        TokenRequest {
            url: SPOTIFY_TOKEN_URL.to_owned(),
            authorization: basic_authorization(client_id, client_secret),
            content_type: FORM_CONTENT_TYPE.to_owned(),
            body,
        }
    }
}

/// The address of the page of a playlist's listing that starts at
/// `offset`, restricted to the identifier, name and public address of
/// each track and the address of the next page.
pub open spec fn tracks_url_text(playlist_id: Seq<char>, offset: int) -> Seq<char> {
    "https://api.spotify.com/v1/playlists/"@ + playlist_id
        + "/tracks?fields=next,items(track(id,name,external_urls))&offset="@ + decimal_text(offset)
}

/// The address to request for the page of a playlist that starts at
/// `offset`.
pub fn tracks_url(playlist_id: &str, offset: i32) -> (r: String)
    ensures
        r@ == tracks_url_text(playlist_id@, offset as int),
{
    let mut url = joined("https://api.spotify.com/v1/playlists/", playlist_id);
    url.append("/tracks?fields=next,items(track(id,name,external_urls))&offset=");
    url.append(decimal(offset).as_str());
    url
}

/// The value of the `Authorization` header of a request for tracks.
pub fn bearer_authorization(access_token: &str) -> (r: String)
    ensures
        r@ == "Bearer "@ + access_token@,
{
    joined("Bearer ", access_token)
}

} // verus!
