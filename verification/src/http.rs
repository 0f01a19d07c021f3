//! The HTTP surface: what a failure is answered with, where an asset is found, and
//! which command a route of the player sends to MPD.

use crate::archive::{url_join, url_joined, MetadataParseError};
use crate::asset::{Asset, AssetId};
use crate::config::Config;
use crate::mpd::{Command, Id};
use crate::range::RangeNotSatisfiable;
use crate::text::{decimal_of, opt_text, push_str, same_text, string_of};
use vstd::prelude::*;

verus! {

/// A failure inside a handler. It is answered with status 500 and a JSON body that
/// holds the message.
#[derive(Debug, Clone, PartialEq, Eq)]
pub struct AppError {
    /// The failure, as its debug text.
    pub message: String,
}

impl AppError {
    /// The status of the response: 500.
    pub fn status(&self) -> (code: u16)
        ensures
            code == 500,
    {
        500
    }
}

/// Why a stream could not be served.
#[derive(Debug)]
pub enum MediaStreamError {
    /// There is no such stream.
    NotFound,
    /// The range asked for cannot be answered.
    RangeNotSatisfiable(RangeNotSatisfiable),
    Io(std::io::Error),
    Database(rusqlite::Error),
    ParseMetadata(MetadataParseError),
}

impl MediaStreamError {
    /// The status of the response: 404 for a stream that is not there, 416 for a range
    /// that cannot be answered, 500 for anything else.
    pub fn status(&self) -> (code: u16)
        ensures
            code == match self {
                MediaStreamError::NotFound => 404u16,
                MediaStreamError::RangeNotSatisfiable(_) => 416u16,
                _ => 500u16,
            },
    {
        match self {
            MediaStreamError::NotFound => 404,
            MediaStreamError::RangeNotSatisfiable(_) => 416,
            _ => 500,
        }
    }
}

/// The seconds for which a client may keep an asset: ten years.
pub const ASSET_MAX_AGE: u64 = 315360000;

/// The `Cache-Control` of an asset: public, and fresh for [`ASSET_MAX_AGE`] seconds.
pub fn asset_cache_control() -> (header: &'static str)
    ensures
        header@ == "public, max-age=315360000"@,
{
    "public, max-age=315360000"
}

/// The path under which an asset is served, relative to the root of the server:
/// `assets/<id>/<digest>/<filename>`.
pub open spec fn asset_path_text(id: AssetId, digest: Seq<char>, filename: Seq<char>) -> Seq<char> {
    "assets/"@ + decimal_of(id.0 as int) + "/"@ + digest + "/"@ + filename
}

/// The path under which `asset` is served, relative to the root of the server.
pub fn asset_path(id: AssetId, asset: &Asset) -> (path: String)
    ensures
        path@ == asset_path_text(id, asset.digest.0@, asset.filename@),
{
    let mut out: Vec<char> = Vec::new();
    push_str(&mut out, "assets/");
    let number = crate::text::decimal_i64(id.0);
    push_str(&mut out, number.as_str());
    push_str(&mut out, "/");
    push_str(&mut out, asset.digest.0.as_str());
    push_str(&mut out, "/");
    push_str(&mut out, asset.filename.as_str());
    assert(out@ =~= asset_path_text(id, asset.digest.0@, asset.filename@));
    string_of(&out)
}

/// The URL of `asset` for clients: its path, resolved against the external URL of the
/// server. `None` where that cannot be done.
pub fn asset_url(config: &Config, id: AssetId, asset: &Asset) -> (url: Option<String>)
    ensures
        opt_text(url) == url_joined(
            config.http.external_url@,
            asset_path_text(id, asset.digest.0@, asset.filename@),
        ),
{
    let path = asset_path(id, asset);
    url_join(config.http.external_url.as_str(), path.as_str())
}

/// What a route of the player does.
#[derive(Clone, Copy, Debug, PartialEq, Eq, Structural)]
pub enum PlayerAction {
    Play,
    Pause,
    Stop,
    SkipNext,
    SkipBack,
}

/// The action of the route `/api/player/<name>`.
pub open spec fn action_of(name: Seq<char>) -> Option<PlayerAction> {
    if name == "play"@ {
        Some(PlayerAction::Play)
    } else if name == "pause"@ {
        Some(PlayerAction::Pause)
    } else if name == "stop"@ {
        Some(PlayerAction::Stop)
    } else if name == "skip-next"@ {
        Some(PlayerAction::SkipNext)
    } else if name == "skip-back"@ {
        Some(PlayerAction::SkipBack)
    } else {
        None
    }
}

impl PlayerAction {
    /// The action of the route `/api/player/<name>`, if there is such a route.
    pub fn from_route(name: &str) -> (action: Option<PlayerAction>)
        ensures
            action == action_of(name@),
    {
        if same_text(name, "play") {
            Some(PlayerAction::Play)
        } else if same_text(name, "pause") {
            Some(PlayerAction::Pause)
        } else if same_text(name, "stop") {
            Some(PlayerAction::Stop)
        } else if same_text(name, "skip-next") {
            Some(PlayerAction::SkipNext)
        } else if same_text(name, "skip-back") {
            Some(PlayerAction::SkipBack)
        } else {
            None
        }
    }

    /// The command that carries this action out.
    pub fn command(&self) -> (command: Command)
        ensures
            command == match self {
                PlayerAction::Play => Command::Play,
                PlayerAction::Pause => Command::Pause,
                PlayerAction::Stop => Command::Stop,
                PlayerAction::SkipNext => Command::Next,
                PlayerAction::SkipBack => Command::Previous,
            },
    {
        match self {
            PlayerAction::Play => Command::Play,
            PlayerAction::Pause => Command::Pause,
            PlayerAction::Stop => Command::Stop,
            PlayerAction::SkipNext => Command::Next,
            PlayerAction::SkipBack => Command::Previous,
        }
    }
}

/// The commands that tune in to a radio stream once it was added to the queue as
/// `id`: stop what is playing, then play the new entry.
pub fn tune(id: Id) -> (commands: Vec<Command>)
    ensures
        commands@ == seq![Command::Stop, Command::PlayId(id)],
{
    let mut commands: Vec<Command> = Vec::new();
    commands.push(Command::Stop);
    commands.push(Command::PlayId(id));
    commands
}

} // verus!
