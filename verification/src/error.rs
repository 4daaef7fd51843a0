use vstd::prelude::*;

verus! {

/// What can go wrong while authenticating or synchronising.
#[derive(Debug, Clone, Copy, PartialEq, Eq, Structural)]
pub enum Error {
    /// The state that came back with the redirect is not the one that was
    /// generated for this attempt.
    InvalidOAuthState,
    /// The token endpoint refused the request or answered with a body that
    /// holds no tokens.
    Auth,
    /// A page of tracks could not be fetched or read.
    Fetch,
    /// The store already holds a track with this remote identifier.
    DuplicateTrack,
    /// The store failed for any other reason.
    Storage,
}

impl Error {
    /// Whether a synchronisation has to stop on this error.
    pub open spec fn fatal(self) -> bool {
        self != Error::DuplicateTrack
    }

    /// What the error says to the user.
    pub open spec fn text(self) -> Seq<char> {
        match self {
            Error::InvalidOAuthState => "Invalid OAuth state parameter"@,
            Error::Auth => "The token endpoint refused the request"@,
            Error::Fetch => "The playlist could not be fetched"@,
            Error::DuplicateTrack => "The track is already stored"@,
            Error::Storage => "The store refused the change"@,
        }
    }

    /// The message of the error.
    pub fn message(&self) -> (r: &'static str)
        ensures
            r@ == self.text(),
    {
        match self {
            Error::InvalidOAuthState => "Invalid OAuth state parameter",
            Error::Auth => "The token endpoint refused the request",
            Error::Fetch => "The playlist could not be fetched",
            Error::DuplicateTrack => "The track is already stored",
            Error::Storage => "The store refused the change",
        }
    }

    /// Exec counterpart of [`Error::fatal`].
    pub fn is_fatal(&self) -> (r: bool)
        ensures
            r == self.fatal(),
    {
        match self {
            Error::DuplicateTrack => false,
            _ => true,
        }
    }
}

} // verus!
