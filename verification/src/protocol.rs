//! What the server and its clients say to each other: the frames of the WebSocket and
//! the bodies of the HTTP API. URLs are held as text.

use crate::mpd::{Id, Seconds};
use crate::text::{opt_text, same_text};
use vstd::prelude::*;
use vstd::std_specs::cmp::PartialEqSpecImpl;
use vstd::std_specs::convert::FromSpecImpl;

verus! {

/// The identifier of a track of the queue, as clients see it.
#[derive(Debug)]
pub struct TrackId(pub String);

impl View for TrackId {
    type V = Seq<char>;

    open spec fn view(&self) -> Seq<char> {
        self.0@
    }
}

impl Clone for TrackId {
    fn clone(&self) -> (id: Self)
        ensures
            id@ == self@,
    {
        TrackId(self.0.clone())
    }
}

impl PartialEq for TrackId {
    fn eq(&self, other: &Self) -> (r: bool) {
        same_text(self.0.as_str(), other.0.as_str())
    }
}

impl PartialEqSpecImpl for TrackId {
    open spec fn obeys_eq_spec() -> bool {
        true
    }

    open spec fn eq_spec(&self, other: &Self) -> bool {
        self@ == other@
    }
}

impl Eq for TrackId {

}

impl From<Id> for TrackId {
    fn from(id: Id) -> (track: TrackId) {
        TrackId(id.0)
    }
}

impl FromSpecImpl<Id> for TrackId {
    open spec fn obeys_from_spec() -> bool {
        true
    }

    open spec fn from_spec(id: Id) -> TrackId {
        TrackId(id.0)
    }
}

impl From<TrackId> for Id {
    fn from(track: TrackId) -> (id: Id) {
        Id(track.0)
    }
}

impl FromSpecImpl<TrackId> for Id {
    open spec fn obeys_from_spec() -> bool {
        true
    }

    open spec fn from_spec(track: TrackId) -> Id {
        Id(track.0)
    }
}

/// The view of an optional track identifier.
pub open spec fn opt_track(t: Option<TrackId>) -> Option<Seq<char>> {
    match t {
        Some(id) => Some(id@),
        None => None,
    }
}

/// How a track is shown.
#[derive(Debug, PartialEq, Eq)]
pub struct TrackInfo {
    pub image_url: Option<String>,
    pub primary_label: String,
    pub secondary_label: Option<String>,
}

/// The contents of a [`TrackInfo`].
pub struct TrackInfoView {
    pub image_url: Option<Seq<char>>,
    pub primary_label: Seq<char>,
    pub secondary_label: Option<Seq<char>>,
}

impl View for TrackInfo {
    type V = TrackInfoView;

    open spec fn view(&self) -> TrackInfoView {
        TrackInfoView {
            image_url: opt_text(self.image_url),
            primary_label: self.primary_label@,
            secondary_label: opt_text(self.secondary_label),
        }
    }
}

impl Clone for TrackInfo {
    fn clone(&self) -> (info: Self)
        ensures
            info@ == self@,
    {
        TrackInfo {
            image_url: self.image_url.clone(),
            primary_label: self.primary_label.clone(),
            secondary_label: self.secondary_label.clone(),
        }
    }
}

/// One entry of the queue.
#[derive(Debug, Clone, PartialEq, Eq)]
pub struct QueueItem {
    pub id: TrackId,
    pub position: i64,
    pub track: TrackInfo,
}

/// The queue.
#[derive(Debug, Clone, PartialEq, Eq)]
pub struct Queue {
    pub items: Vec<QueueItem>,
}

/// What the extractor says of a URL, as clients see it.
#[derive(Debug, Clone, PartialEq, Eq)]
pub struct Metadata {
    pub title: String,
    pub artist: Option<String>,
    pub thumbnail: Option<String>,
}

/// What the player is doing, as clients see it.
#[derive(Debug, Clone, Copy, PartialEq, Eq, Structural)]
pub enum PlayState {
    Stopped,
    Loading,
    Playing,
}

/// How far the player is into the current track.
#[derive(Debug, Clone, PartialEq, Eq)]
pub enum PlayPosition {
    /// The track has no end.
    Streaming,
    /// So many seconds into a track of so many seconds.
    Elapsed { time: Seconds, duration: Seconds },
}

/// The state of the player, as clients see it.
#[derive(Debug, Clone, PartialEq, Eq)]
pub struct PlayerStatus {
    pub track: Option<TrackId>,
    pub state: PlayState,
    pub position: Option<PlayPosition>,
}

/// A frame from a client. None is defined yet.
#[derive(Debug, Clone, PartialEq, Eq)]
pub struct ClientMessage {}

/// A frame from the server.
#[derive(Debug, Clone, PartialEq, Eq)]
pub enum ServerMessage {
    Queue { queue: Queue },
    TrackChange { track: Option<TrackInfo> },
    Player { player: PlayerStatus },
}

/// The body of a request to add a URL to the queue.
#[derive(Debug, Clone, PartialEq, Eq)]
pub struct AddParams {
    pub url: String,
}

/// The answer to a request to add a URL to the queue.
#[derive(Debug, Clone, PartialEq, Eq)]
pub struct AddResponse {
    pub mpd_id: TrackId,
}

/// The body of a request to tune in to a radio stream.
#[derive(Debug, Clone, PartialEq, Eq)]
pub struct TuneParams {
    pub url: String,
}

/// A radio station, as clients see it.
#[derive(Debug, Clone, PartialEq, Eq)]
pub struct RadioStation {
    pub name: String,
    pub icon_url: String,
    pub stream_url: String,
}

} // verus!
