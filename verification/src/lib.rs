//! Request-time rewriting of HLS master playlists.
//!
//! A request for a master playlist is validated, forwarded to the origin, and
//! the playlist that comes back is returned with a session token put in front
//! of every variant stream URI, so that the requests which follow for media
//! playlists and segments carry the token in their path.

pub mod decimal;
pub mod handler;
pub mod http;
pub mod playlist;
pub mod validate;
pub mod version;
