//! Authentication against a music catalog service and resumable playlist
//! synchronisation into local storage.

pub mod auth;
pub mod credentials;
pub mod driver;
pub mod encoding;
pub mod error;
pub mod models;
pub mod remote;
pub mod request;
pub mod state;
pub mod store;
pub mod sync;
pub mod track;
