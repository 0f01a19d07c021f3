//! The session of one WebSocket client: what it is told at the start, and what it is
//! told when MPD reports a change.
//!
//! The caller owns the socket and the connection to MPD. It asks [`Session::next`] what
//! to do, fetches what is wanted, hands it to the session and sends the frames that the
//! session returns.

use crate::mpd::{event_of, Changed, MpdEvent};
use crate::protocol::{opt_track, PlayerStatus, Queue, ServerMessage, TrackId, TrackInfo};
use vstd::prelude::*;

verus! {

/// What the session wants next.
#[derive(Clone, Copy, Debug, PartialEq, Eq, Structural)]
pub enum Want {
    /// The queue: fetch it and hand it to `on_queue`.
    Queue,
    /// The state of the player: fetch it and hand it to `on_status`.
    Status,
    /// Nothing until MPD reports a change: wait and hand the change to `on_idle`.
    Idle,
}

/// What a new state of the player means for the current track.
#[derive(Debug)]
pub enum TrackLookup {
    /// The current track is the one that the client knows.
    Unchanged,
    /// The current track is another one, or none: look it up, if there is one, and tell
    /// the client.
    Changed(Option<TrackId>),
}

/// The state of a session.
#[derive(Debug)]
pub struct Session {
    /// Whether the queue is to be sent.
    pub playlist: bool,
    /// Whether the state of the player is to be sent.
    pub player: bool,
    /// The current track as the client knows it.
    pub current_track: Option<TrackId>,
}

/// The contents of a [`Session`].
pub struct SessionView {
    pub playlist: bool,
    pub player: bool,
    pub current_track: Option<Seq<char>>,
}

impl View for Session {
    type V = SessionView;

    open spec fn view(&self) -> SessionView {
        SessionView {
            playlist: self.playlist,
            player: self.player,
            current_track: opt_track(self.current_track),
        }
    }
}

impl SessionView {
    /// The state of a session that has told its client nothing yet: everything is to
    /// be sent.
    pub open spec fn fresh() -> SessionView {
        SessionView { playlist: true, player: true, current_track: None }
    }

    /// What is wanted in this state: the queue first, then the player, then a change.
    pub open spec fn want(self) -> Want {
        if self.playlist {
            Want::Queue
        } else if self.player {
            Want::Status
        } else {
            Want::Idle
        }
    }

    /// The state after the subsystems `names` were reported as changed.
    pub open spec fn changed(self, names: Seq<Seq<char>>) -> SessionView
        decreases names.len(),
    {
        if names.len() == 0 {
            self
        } else {
            let before = self.changed(names.drop_last());
            match event_of(names.last()) {
                Some(MpdEvent::Playlist) => SessionView { playlist: true, ..before },
                Some(MpdEvent::Player) => SessionView { player: true, ..before },
                None => before,
            }
        }
    }
}

impl Session {
    /// A session that has told its client nothing yet.
    pub fn new() -> (s: Self)
        ensures
            s@ == SessionView::fresh(),
    {
        Session { playlist: true, player: true, current_track: None }
    }

    /// What the session wants next.
    pub fn next(&self) -> (want: Want)
        ensures
            want == self@.want(),
    {
        if self.playlist {
            Want::Queue
        } else if self.player {
            Want::Status
        } else {
            Want::Idle
        }
    }

    /// Takes the queue and returns the frame that tells it to the client.
    pub fn on_queue(&mut self, queue: Queue) -> (frame: ServerMessage)
        ensures
            frame == (ServerMessage::Queue { queue }),
            final(self)@ == (SessionView { playlist: false, ..old(self)@ }),
    {
        self.playlist = false;
        ServerMessage::Queue { queue }
    }

    /// Takes the state of the player and says whether the current track is another one
    /// than the client knows; where it is, that track is the known one from here on.
    pub fn on_status(&mut self, player: &PlayerStatus) -> (lookup: TrackLookup)
        ensures
            opt_track(player.track) == old(self)@.current_track ==> lookup is Unchanged
                && final(self)@ == old(self)@,
            opt_track(player.track) != old(self)@.current_track ==> lookup is Changed
                && opt_track(lookup->Changed_0) == opt_track(player.track) && final(self)@ == (
            SessionView { current_track: opt_track(player.track), ..old(self)@ }),
    {
        let same = match (&player.track, &self.current_track) {
            (None, None) => true,
            (Some(a), Some(b)) => *a == *b,
            _ => false,
        };
        if same {
            TrackLookup::Unchanged
        } else {
            self.current_track = player.track.clone();
            TrackLookup::Changed(player.track.clone())
        }
    }

    /// Returns the frames that tell the state of the player to the client: where the
    /// current track changed, the frame that shows it, with `track` as found for it;
    /// then the frame of the player.
    pub fn player_frames(&mut self, lookup: TrackLookup, track: Option<TrackInfo>, player: PlayerStatus) -> (frames:
        Vec<ServerMessage>)
        ensures
            final(self)@ == (SessionView { player: false, ..old(self)@ }),
            lookup is Unchanged ==> frames@ == seq![ServerMessage::Player { player }],
            lookup is Changed ==> frames@ == seq![
                ServerMessage::TrackChange { track },
                ServerMessage::Player { player },
            ],
    {
        self.player = false;
        let mut frames: Vec<ServerMessage> = Vec::new();
        if let TrackLookup::Changed(_) = lookup {
            frames.push(ServerMessage::TrackChange { track });
        }
        frames.push(ServerMessage::Player { player });
        frames
    }

    /// Takes what MPD reported as changed: the queue is to be sent again where the
    /// playlist changed, and the state of the player where the player changed.
    pub fn on_idle(&mut self, changed: &Changed)
        ensures
            final(self)@ == old(self)@.changed(changed.names()),
    {
        let ghost names = changed.names();
        let mut i: usize = 0;
        assert(names.take(0).len() == 0);
        while i < changed.subsystems.len()
            invariant
                i <= changed.subsystems.len(),
                names == changed.names(),
                self@ == old(self)@.changed(names.take(i as int)),
            decreases changed.subsystems.len() - i,
        {
            proof {
                assert(names.take(i + 1).drop_last() == names.take(i as int));
                assert(names.take(i + 1).last() == changed.subsystems@[i as int]@);
            }
            match MpdEvent::from_name(changed.subsystems[i].as_str()) {
                Some(MpdEvent::Playlist) => {
                    self.playlist = true;
                },
                Some(MpdEvent::Player) => {
                    self.player = true;
                },
                None => {},
            }
            i += 1;
        }
        assert(names.take(names.len() as int) == names);
    }
}

/// The frames that a fresh session sends before it first waits for a change: the
/// queue, then the current track where there is one, then the player.
pub open spec fn initial_frames(queue: Queue, player: PlayerStatus, track: Option<TrackInfo>) -> Seq<
    ServerMessage,
> {
    if player.track is Some {
        seq![
            ServerMessage::Queue { queue },
            ServerMessage::TrackChange { track },
            ServerMessage::Player { player },
        ]
    } else {
        seq![ServerMessage::Queue { queue }, ServerMessage::Player { player }]
    }
}

/// Brings a fresh session up to its first wait, given what MPD holds: returns the
/// frames sent, which depend on nothing but that.
pub fn start(queue: Queue, player: PlayerStatus, track: Option<TrackInfo>) -> (r: (
    Session,
    Vec<ServerMessage>,
))
    ensures
        r.1@ == initial_frames(queue, player, track),
        r.0@ == (SessionView {
            playlist: false,
            player: false,
            current_track: opt_track(player.track),
        }),
        r.0@.want() == Want::Idle,
{
    let mut session = Session::new();
    let first = session.on_queue(queue);
    let lookup = session.on_status(&player);
    let mut frames = session.player_frames(lookup, track, player);
    frames.insert(0, first);
    assert(frames@ =~= initial_frames(queue, player, track));
    (session, frames)
}

/// Sessions start alike: two fresh sessions that find the same queue, the same state of
/// the player and the same current track send the same frames.
pub proof fn law_sessions_start_alike(
    queue: Queue,
    player: PlayerStatus,
    track: Option<TrackInfo>,
    first: (Session, Vec<ServerMessage>),
    second: (Session, Vec<ServerMessage>),
)
    requires
        first.1@ == initial_frames(queue, player, track),
        second.1@ == initial_frames(queue, player, track),
    ensures
        first.1@ == second.1@,
        first.1@.len() >= 2,
        first.1@[0] == (ServerMessage::Queue { queue }),
        first.1@.last() == (ServerMessage::Player { player }),
{
}

} // verus!
