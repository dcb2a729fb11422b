//! Verified core of the YT Music desktop companion: the Last.fm client's
//! request signing and reply handling, the local control server's routing,
//! and the audio-session ownership walk.

pub mod text;
pub mod number;
pub mod params;
pub mod signature;
pub mod routes;
pub mod volmixer;
pub mod json;
pub mod lastfm;
