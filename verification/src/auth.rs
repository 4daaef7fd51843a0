use vstd::prelude::*;
use crate::credentials::{
    held_in, lemma_token_keys_differ, saved_in, CredentialFile, Credentials, CredentialsView,
    ACCESS_TOKEN, REFRESH_TOKEN, SECTION,
};
use crate::error::Error;
use crate::request::{authorize_url, authorize_url_text, code_body_text, refresh_body_text, TokenRequest};
use crate::state::validate;

verus! {

/// What the token endpoint answered.
#[derive(Debug, Clone, PartialEq, Eq)]
pub enum TokenReply {
    /// The endpoint refused the request.
    Rejected,
    /// The body of the answer could not be read.
    Unreadable,
    /// The tokens of the answer. A refresh does not send a refresh token.
    Tokens { access_token: String, refresh_token: Option<String> },
}

impl TokenReply {
    /// The credentials that an answer to a code exchange holds: both
    /// tokens, or nothing.
    pub open spec fn granted(self) -> Option<CredentialsView> {
        match self {
            TokenReply::Tokens { access_token, refresh_token: Some(refresh_token) } => Some(
                CredentialsView { access_token: access_token@, refresh_token: refresh_token@ },
            ),
            _ => None,
        }
    }

    /// The access token that an answer to a refresh holds, if any.
    pub open spec fn refreshed(self) -> Option<Seq<char>> {
        match self {
            TokenReply::Tokens { access_token, refresh_token: _ } => Some(access_token@),
            _ => None,
        }
    }
}

/// Where an authentication attempt stands.
#[derive(Debug, Clone, Copy, PartialEq, Eq, Structural)]
pub enum AuthPhase {
    /// Nothing has happened yet.
    Idle,
    /// The authorization page is open; the redirect is awaited.
    Listening,
    /// The redirect carried the right state; the answer of the token
    /// endpoint is awaited.
    Exchanging,
    /// The tokens are stored.
    Completed,
    /// The attempt failed.
    Rejected(Error),
    /// The listener was shut down.
    Stopped,
}

/// What the attempt asks its driver to do.
#[derive(Debug, Clone, PartialEq, Eq)]
pub enum AuthAction {
    /// Open this address in the browser and listen for the redirect.
    Open { url: String },
    /// Post this request to the token endpoint.
    Exchange(TokenRequest),
    /// Write the credentials file, answer with the confirmation page and
    /// stop listening.
    Confirm,
    /// Report the error and stop listening.
    Fail(Error),
    /// Nothing: the event came out of turn.
    Ignore,
}

/// One authentication attempt, bound to one freshly generated state.
pub struct AuthAttempt {
    client_id: String,
    client_secret: String,
    state: String,
    phase: AuthPhase,
    exchanges: usize,
}

/// Mathematical value of an [`AuthAttempt`].
pub struct AttemptView {
    pub client_id: Seq<char>,
    pub client_secret: Seq<char>,
    /// The state that was generated for this attempt.
    pub state: Seq<char>,
    pub phase: AuthPhase,
    /// How many requests to the token endpoint were asked for.
    pub exchanges: nat,
}

impl AttemptView {
    /// A request to the token endpoint was asked for once the redirect
    /// had carried the right state, and never before or twice.
    pub open spec fn wf(self) -> bool {
        match self.phase {
            AuthPhase::Idle | AuthPhase::Listening => self.exchanges == 0,
            AuthPhase::Exchanging | AuthPhase::Completed => self.exchanges == 1,
            AuthPhase::Rejected(e) => if e == Error::InvalidOAuthState {
                self.exchanges == 0
            } else {
                self.exchanges == 1
            },
            AuthPhase::Stopped => self.exchanges <= 1,
        }
    }

    /// The attempt after the redirect arrived with `state`: the token
    /// exchange follows where the state is the generated one, and the
    /// attempt is rejected where it is not. A redirect that is not
    /// awaited changes nothing.
    pub open spec fn after_callback(self, state: Seq<char>) -> AttemptView {
        if self.phase != AuthPhase::Listening {
            self
        } else if state == self.state {
            AttemptView { phase: AuthPhase::Exchanging, exchanges: self.exchanges + 1, ..self }
        } else {
            AttemptView { phase: AuthPhase::Rejected(Error::InvalidOAuthState), ..self }
        }
    }

    /// The attempt after the token endpoint answered. An answer that is
    /// not awaited changes nothing.
    pub open spec fn after_reply(self, reply: TokenReply) -> AttemptView {
        if self.phase != AuthPhase::Exchanging {
            self
        } else if reply.granted() is Some {
            AttemptView { phase: AuthPhase::Completed, ..self }
        } else {
            AttemptView { phase: AuthPhase::Rejected(Error::Auth), ..self }
        }
    }
}

impl View for AuthAttempt {
    type V = AttemptView;

    closed spec fn view(&self) -> AttemptView {
        AttemptView {
            client_id: self.client_id@,
            client_secret: self.client_secret@,
            state: self.state@,
            phase: self.phase,
            exchanges: self.exchanges as nat,
        }
    }
}

impl AuthAttempt {
    /// The invariant of the attempt, stated over its value.
    pub open spec fn wf(&self) -> bool {
        self@.wf()
    }

    /// An attempt that has not begun.
    pub fn new(client_id: &str, client_secret: &str, state: &str) -> (r: AuthAttempt)
        ensures
            r.wf(),
            r@ == (AttemptView {
                client_id: client_id@,
                client_secret: client_secret@,
                state: state@,
                phase: AuthPhase::Idle,
                exchanges: 0,
            }),
    {
        AuthAttempt {
            client_id: client_id.to_owned(),
            client_secret: client_secret.to_owned(),
            state: state.to_owned(),
            phase: AuthPhase::Idle,
            exchanges: 0,
        }
    }

    /// Where the attempt stands.
    pub fn phase(&self) -> (r: AuthPhase)
        ensures
            r == self@.phase,
    {
        self.phase
    }

    /// How many requests to the token endpoint were asked for.
    pub fn exchanges(&self) -> (r: usize)
        ensures
            r == self@.exchanges,
    {
        self.exchanges
    }

    /// Begins the attempt: the authorization page is to be opened, and
    /// the redirect is awaited. An attempt begins once.
    pub fn begin(&mut self) -> (r: AuthAction)
        requires
            old(self).wf(),
        ensures
            final(self).wf(),
            old(self)@.phase == AuthPhase::Idle ==> final(self)@ == (AttemptView {
                phase: AuthPhase::Listening,
                ..old(self)@
            }),
            old(self)@.phase != AuthPhase::Idle ==> final(self)@ == old(self)@,
            match r {
                AuthAction::Open { url } => old(self)@.phase == AuthPhase::Idle && url@
                    == authorize_url_text(old(self)@.client_id, old(self)@.state),
                AuthAction::Ignore => old(self)@.phase != AuthPhase::Idle,
                _ => false,
            },
    {
        match self.phase {
            AuthPhase::Idle => {
                self.phase = AuthPhase::Listening;
                AuthAction::Open { url: authorize_url(self.client_id.as_str(), self.state.as_str()) }
            },
            _ => AuthAction::Ignore,
        }
    }

    /// Takes the redirect. The token exchange is asked for if and only if
    /// the redirect is awaited and carries the generated state; a
    /// redirect with another state rejects the attempt with
    /// `InvalidOAuthState`.
    pub fn on_callback(&mut self, code: &str, state: &str) -> (r: AuthAction)
        requires
            old(self).wf(),
        ensures
            final(self).wf(),
            final(self)@ == old(self)@.after_callback(state@),
            match r {
                AuthAction::Exchange(request) => old(self)@.phase == AuthPhase::Listening && state@
                    == old(self)@.state && request.carries(
                    old(self)@.client_id,
                    old(self)@.client_secret,
                    code_body_text(code@),
                ),
                AuthAction::Fail(e) => old(self)@.phase == AuthPhase::Listening && state@ != old(
                    self,
                )@.state && e == Error::InvalidOAuthState,
                AuthAction::Ignore => old(self)@.phase != AuthPhase::Listening,
                _ => false,
            },
    {
        match self.phase {
            AuthPhase::Listening => {
                if validate(state, self.state.as_str()) {
                    self.phase = AuthPhase::Exchanging;
                    self.exchanges = self.exchanges + 1;
                    AuthAction::Exchange(
                        TokenRequest::exchange(
                            self.client_id.as_str(),
                            self.client_secret.as_str(),
                            code,
                        ),
                    )
                } else {
                    self.phase = AuthPhase::Rejected(Error::InvalidOAuthState);
                    AuthAction::Fail(Error::InvalidOAuthState)
                }
            },
            _ => AuthAction::Ignore,
        }
    }

    /// Takes the answer of the token endpoint. Where it holds both
    /// tokens they are stored in the credentials file before anything is
    /// confirmed; any other answer rejects the attempt with `Auth` and
    /// leaves the file as it was.
    pub fn on_reply(&mut self, reply: TokenReply, file: &mut CredentialFile) -> (r: AuthAction)
        requires
            old(self).wf(),
        ensures
            final(self).wf(),
            final(self)@ == old(self)@.after_reply(reply),
            match r {
                AuthAction::Confirm => old(self)@.phase == AuthPhase::Exchanging && reply.granted()
                    is Some && final(file)@ == saved_in(old(file)@, reply.granted()->0),
                AuthAction::Fail(e) => old(self)@.phase == AuthPhase::Exchanging && reply.granted()
                    is None && e == Error::Auth && final(file)@ == old(file)@,
                AuthAction::Ignore => old(self)@.phase != AuthPhase::Exchanging && final(file)@
                    == old(file)@,
                _ => false,
            },
    {
        match self.phase {
            AuthPhase::Exchanging => match reply {
                TokenReply::Tokens { access_token, refresh_token: Some(refresh_token) } => {
                    let credentials = Credentials { access_token, refresh_token };
                    file.save(&credentials);
                    self.phase = AuthPhase::Completed;
                    AuthAction::Confirm
                },
                _ => {
                    self.phase = AuthPhase::Rejected(Error::Auth);
                    AuthAction::Fail(Error::Auth)
                },
            },
            _ => AuthAction::Ignore,
        }
    }

    /// Shuts the listener down, whether a redirect arrived or not.
    /// Nothing that arrives later has any effect.
    pub fn shut_down(&mut self)
        requires
            old(self).wf(),
        ensures
            final(self).wf(),
            final(self)@ == (AttemptView { phase: AuthPhase::Stopped, ..old(self)@ }),
    {
        self.phase = AuthPhase::Stopped;
    }
}

/// Begins an authentication attempt that is bound to `state`: the attempt
/// awaits the redirect, and the address of the authorization page is to
/// be opened.
pub fn authenticate(client_id: &str, client_secret: &str, state: &str) -> (r: (
    AuthAttempt,
    AuthAction,
))
    ensures
        r.0.wf(),
        r.0@ == (AttemptView {
            client_id: client_id@,
            client_secret: client_secret@,
            state: state@,
            phase: AuthPhase::Listening,
            exchanges: 0,
        }),
        match r.1 {
            AuthAction::Open { url } => url@ == authorize_url_text(client_id@, state@),
            _ => false,
        },
{
    let mut attempt = AuthAttempt::new(client_id, client_secret, state);
    let action = attempt.begin();
    (attempt, action)
}

/// The request that refreshes the access token with the refresh token of
/// the file. `None` where the file holds no refresh token.
pub fn refresh_request(file: &CredentialFile, client_id: &str, client_secret: &str) -> (r: Option<
    TokenRequest,
>)
    ensures
        r is Some == file@.contains_key((SECTION@, REFRESH_TOKEN@)),
        r is Some ==> r->0.carries(
            client_id@,
            client_secret@,
            refresh_body_text(file@[(SECTION@, REFRESH_TOKEN@)]),
        ),
{
    match file.refresh_token() {
        Some(token) => Some(TokenRequest::refresh(client_id, client_secret, token.as_str())),
        None => None,
    }
}

/// Takes the answer to a refresh. A new access token is stored in the
/// file, beside the refresh token that was there, and returned. Any other
/// answer is an `Auth` error and leaves the file as it was.
pub fn refresh_access_token(file: &mut CredentialFile, reply: TokenReply) -> (r: Result<
    String,
    Error,
>)
    ensures
        r is Ok == reply.refreshed() is Some,
        match r {
            Ok(token) => token@ == reply.refreshed()->0 && final(file)@ == old(file)@.insert(
                (SECTION@, ACCESS_TOKEN@),
                token@,
            ),
            Err(e) => e == Error::Auth && final(file)@ == old(file)@,
        },
{
    match reply {
        TokenReply::Tokens { access_token, refresh_token: _ } => {
            file.set_access_token(access_token.as_str());
            Ok(access_token)
        },
        _ => Err(Error::Auth),
    }
}

/// A redirect that carries the generated state leads to one request to
/// the token endpoint, and an answer with both tokens then completes the
/// attempt: the request was asked for exactly once, and the credentials
/// file holds the new tokens.
pub proof fn lemma_matching_state_exchanges_once(
    attempt: AttemptView,
    reply: TokenReply,
    entries: Map<(Seq<char>, Seq<char>), Seq<char>>,
)
    requires
        attempt.wf(),
        attempt.phase == AuthPhase::Listening,
        reply.granted() is Some,
    ensures
        attempt.after_callback(attempt.state).phase == AuthPhase::Exchanging,
        attempt.after_callback(attempt.state).exchanges == 1,
        attempt.after_callback(attempt.state).after_reply(reply).phase == AuthPhase::Completed,
        attempt.after_callback(attempt.state).after_reply(reply).exchanges == 1,
        held_in(saved_in(entries, reply.granted()->0)) == reply.granted(),
{
    lemma_token_keys_differ();
}

/// A redirect that carries any other state rejects the attempt with
/// `InvalidOAuthState`, and no request to the token endpoint is asked
/// for, then or later: whatever arrives afterwards changes nothing.
pub proof fn lemma_other_state_never_exchanges(
    attempt: AttemptView,
    state: Seq<char>,
    later_state: Seq<char>,
    later_reply: TokenReply,
)
    requires
        attempt.wf(),
        attempt.phase == AuthPhase::Listening,
        state != attempt.state,
    ensures
        attempt.after_callback(state).phase == AuthPhase::Rejected(Error::InvalidOAuthState),
        attempt.after_callback(state).exchanges == 0,
        attempt.after_callback(state).after_callback(later_state) == attempt.after_callback(state),
        attempt.after_callback(state).after_reply(later_reply) == attempt.after_callback(state),
{
}

/// The listener serves one redirect: whatever the first one carried, a
/// second one changes nothing.
pub proof fn lemma_one_redirect_is_served(
    attempt: AttemptView,
    first: Seq<char>,
    second: Seq<char>,
)
    requires
        attempt.wf(),
        attempt.phase == AuthPhase::Listening,
    ensures
        attempt.after_callback(first).wf(),
        attempt.after_callback(first).after_callback(second) == attempt.after_callback(first),
        attempt.after_callback(first).exchanges <= 1,
{
}

/// A refresh that the server rejects leaves the stored refresh token, and
/// every other entry of the file, as it was; one that it accepts changes
/// the access token alone.
pub proof fn lemma_refresh_keeps_refresh_token(
    entries: Map<(Seq<char>, Seq<char>), Seq<char>>,
    access_token: Seq<char>,
)
    ensures
        entries.insert((SECTION@, ACCESS_TOKEN@), access_token).contains_key(
            (SECTION@, REFRESH_TOKEN@),
        ) == entries.contains_key((SECTION@, REFRESH_TOKEN@)),
        entries.contains_key((SECTION@, REFRESH_TOKEN@)) ==> entries.insert(
            (SECTION@, ACCESS_TOKEN@),
            access_token,
        )[(SECTION@, REFRESH_TOKEN@)] == entries[(SECTION@, REFRESH_TOKEN@)],
{
    lemma_token_keys_differ();
}

} // verus!
