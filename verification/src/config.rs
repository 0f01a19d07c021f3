//! The configuration of the server, as plain values.

use vstd::prelude::*;

verus! {

/// The whole configuration.
#[derive(Debug, Clone, PartialEq, Eq)]
pub struct Config {
    pub http: Http,
    pub mpd: Mpd,
    pub storage: Storage,
}

/// Where the server listens and under which URLs it is reached.
#[derive(Debug, Clone, PartialEq, Eq)]
pub struct Http {
    /// The socket address to listen on, as text.
    pub listen: String,
    /// The URL under which MPD reaches the server.
    pub internal_url: String,
    /// The URL under which clients reach the server.
    pub external_url: String,
}

/// Where MPD is reached.
#[derive(Debug, Clone, PartialEq, Eq)]
pub struct Mpd {
    /// The path of MPD's socket.
    pub socket: String,
}

/// Where files are kept.
#[derive(Debug, Clone, PartialEq, Eq)]
pub struct Storage {
    /// The root of the archive.
    pub archive: String,
    /// The root of the scratch directories.
    pub working: String,
    /// The path of the database.
    pub database: String,
}

} // verus!
