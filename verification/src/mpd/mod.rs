//! The MPD client: the commands that the server sends, and what MPD's responses mean.
//!
//! The connection itself belongs to the caller: it frames a command with
//! [`Command::frame`], writes the line, reads the response through
//! [`protocol::ResponseReader`] and hands the attributes to one of the readers here.

pub mod id;
pub mod protocol;

pub use id::Id;

use crate::mpd::protocol::{
    all_values, args_view, command_line, first_value, format_command, groups, Attributes,
    ErrorAck, OkResponse, ProtocolError,
};
use crate::text::{
    chars_of, is_float, is_number, opt_text, parse_i64, same_text, signed_decimal,
};
use vstd::prelude::*;

verus! {

/// The view of an optional identifier.
pub open spec fn opt_id(id: Option<Id>) -> Option<Seq<char>> {
    match id {
        Some(i) => Some(i@),
        None => None,
    }
}

/// A number of seconds, as the text in which MPD wrote it. What [`parse_status`] gives
/// is a number as `f64` reads it.
#[derive(Debug, Clone, PartialEq, Eq)]
pub struct Seconds(pub String);

/// The queue of MPD.
#[derive(Debug)]
pub struct Playlist {
    pub items: Vec<PlaylistItem>,
}

/// One entry of MPD's queue.
#[derive(Debug)]
pub struct PlaylistItem {
    pub file: String,
    pub pos: i64,
    pub id: Id,
    pub name: Option<String>,
    pub title: Option<String>,
}

/// The contents of a [`PlaylistItem`].
pub struct PlaylistItemView {
    pub file: Seq<char>,
    pub pos: i64,
    pub id: Seq<char>,
    pub name: Option<Seq<char>>,
    pub title: Option<Seq<char>>,
}

impl View for PlaylistItem {
    type V = PlaylistItemView;

    open spec fn view(&self) -> PlaylistItemView {
        PlaylistItemView {
            file: self.file@,
            pos: self.pos,
            id: self.id@,
            name: opt_text(self.name),
            title: opt_text(self.title),
        }
    }
}

impl Clone for PlaylistItem {
    fn clone(&self) -> (item: Self)
        ensures
            item@ == self@,
    {
        PlaylistItem {
            file: self.file.clone(),
            pos: self.pos,
            id: self.id.clone(),
            name: self.name.clone(),
            title: self.title.clone(),
        }
    }
}

impl View for Playlist {
    type V = Seq<PlaylistItemView>;

    open spec fn view(&self) -> Seq<PlaylistItemView> {
        self.items@.map_values(|i: PlaylistItem| i@)
    }
}

/// What is wrong with the attributes of a response.
#[derive(Debug, Clone, PartialEq, Eq)]
pub enum AttributeError {
    /// An attribute that must be there is not; this is its name.
    Missing(String),
    /// An attribute has a value that cannot be read; these are its name and its value.
    Malformed(String, String),
}

/// The contents of an [`AttributeError`].
pub enum AttributeFault {
    Missing(Seq<char>),
    Malformed(Seq<char>, Seq<char>),
}

impl View for AttributeError {
    type V = AttributeFault;

    open spec fn view(&self) -> AttributeFault {
        match self {
            AttributeError::Missing(k) => AttributeFault::Missing(k@),
            AttributeError::Malformed(k, v) => AttributeFault::Malformed(k@, v@),
        }
    }
}

/// Why a command failed.
#[derive(Debug, Clone, PartialEq, Eq)]
pub enum MpdError {
    /// What MPD sent is no response, or the command cannot be sent.
    Protocol(ProtocolError),
    /// MPD refused the command.
    ErrorAck(ErrorAck),
    /// The response lacks what the command promises.
    Attribute(AttributeError),
}

/// The entry of the queue that the attributes `attrs` describe: `file`, `Pos` and `Id`
/// must be there, and `Pos` must be a number; `Title` and `Name` may be there. The first
/// attribute of a name counts.
pub open spec fn playlist_item_of(attrs: Seq<(Seq<char>, Seq<char>)>) -> Result<
    PlaylistItemView,
    AttributeFault,
> {
    let file = first_value(attrs, "file"@);
    let pos = first_value(attrs, "Pos"@);
    let id = first_value(attrs, "Id"@);
    if file is None {
        Err(AttributeFault::Missing("file"@))
    } else if pos is None {
        Err(AttributeFault::Missing("Pos"@))
    } else if signed_decimal(pos->0) is None {
        Err(AttributeFault::Malformed("Pos"@, pos->0))
    } else if id is None {
        Err(AttributeFault::Missing("Id"@))
    } else {
        Ok(
            PlaylistItemView {
                file: file->0,
                pos: signed_decimal(pos->0)->0 as i64,
                id: id->0,
                name: first_value(attrs, "Name"@),
                title: first_value(attrs, "Title"@),
            },
        )
    }
}

/// The value of the attribute `key`, or the error that it is missing.
fn required(attrs: &Attributes, key: &str) -> (r: Result<String, AttributeError>)
    ensures
        r is Ok <==> first_value(attrs@, key@) is Some,
        r is Ok ==> r->Ok_0@ == first_value(attrs@, key@)->0,
        r is Err ==> r->Err_0@ == AttributeFault::Missing(key@),
{
    match attrs.get_one(key) {
        Some(v) => Ok(v.to_owned()),
        None => Err(AttributeError::Missing(key.to_owned())),
    }
}

/// The value of the attribute `key`, if it is there.
fn optional(attrs: &Attributes, key: &str) -> (r: Option<String>)
    ensures
        opt_text(r) == first_value(attrs@, key@),
{
    match attrs.get_one(key) {
        Some(v) => Some(v.to_owned()),
        None => None,
    }
}

/// The view of the result of reading attributes.
pub open spec fn item_result_view(r: Result<PlaylistItem, AttributeError>) -> Result<
    PlaylistItemView,
    AttributeFault,
> {
    match r {
        Ok(i) => Ok(i@),
        Err(e) => Err(e@),
    }
}

/// Reads one entry of the queue from its attributes.
pub fn parse_playlist_item(attrs: &Attributes) -> (r: Result<PlaylistItem, AttributeError>)
    ensures
        item_result_view(r) == playlist_item_of(attrs@),
{
    let file = match required(attrs, "file") {
        Ok(v) => v,
        Err(e) => {
            return Err(e);
        },
    };
    let pos_text = match required(attrs, "Pos") {
        Ok(v) => v,
        Err(e) => {
            return Err(e);
        },
    };
    let pos_chars = chars_of(pos_text.as_str());
    let pos = match parse_i64(&pos_chars) {
        Some(n) => n,
        None => {
            return Err(AttributeError::Malformed("Pos".to_owned(), pos_text));
        },
    };
    let id = match required(attrs, "Id") {
        Ok(v) => Id(v),
        Err(e) => {
            return Err(e);
        },
    };
    let title = optional(attrs, "Title");
    let name = optional(attrs, "Name");
    Ok(PlaylistItem { file, pos, id, name, title })
}

/// The entries that the groups `gs` of attributes describe, or what is wrong with the
/// first group that describes none.
pub open spec fn playlist_of(gs: Seq<Seq<(Seq<char>, Seq<char>)>>) -> Result<
    Seq<PlaylistItemView>,
    AttributeFault,
>
    decreases gs.len(),
{
    if gs.len() == 0 {
        Ok(Seq::empty())
    } else {
        match playlist_of(gs.drop_last()) {
            Err(e) => Err(e),
            Ok(items) => match playlist_item_of(gs.last()) {
                Err(e) => Err(e),
                Ok(item) => Ok(items.push(item)),
            },
        }
    }
}

/// The view of the result of reading a queue.
pub open spec fn playlist_result_view(r: Result<Playlist, AttributeError>) -> Result<
    Seq<PlaylistItemView>,
    AttributeFault,
> {
    match r {
        Ok(p) => Ok(p@),
        Err(e) => Err(e@),
    }
}

/// Reads the queue from the response to `playlistinfo`: one entry for each `file`
/// attribute, with the attributes that follow it.
pub fn parse_playlist(attrs: &Attributes) -> (r: Result<Playlist, AttributeError>)
    ensures
        playlist_result_view(r) == playlist_of(groups(attrs@, "file"@)),
{
    let parts = attrs.split_at("file");
    let ghost gs = groups(attrs@, "file"@);
    let mut items: Vec<PlaylistItem> = Vec::new();
    let mut i: usize = 0;
    assert(gs.take(0).len() == 0);
    assert(items@.map_values(|i: PlaylistItem| i@) =~= Seq::<PlaylistItemView>::empty());
    while i < parts.len()
        invariant
            i <= parts.len(),
            gs == groups(attrs@, "file"@),
            gs == parts@.map_values(|a: Attributes| a@),
            playlist_of(gs.take(i as int)) == Ok::<Seq<PlaylistItemView>, AttributeFault>(
                items@.map_values(|i: PlaylistItem| i@),
            ),
        decreases parts.len() - i,
    {
        proof {
            assert(gs.take(i + 1).drop_last() == gs.take(i as int));
            assert(gs.take(i + 1).last() == parts@[i as int]@);
        }
        match parse_playlist_item(&parts[i]) {
            Ok(item) => {
                let ghost before = items@;
                items.push(item);
                assert(items@.map_values(|i: PlaylistItem| i@) =~= before.map_values(
                    |i: PlaylistItem| i@,
                ).push(item@));
            },
            Err(e) => {
                proof {
                    assert(playlist_item_of(gs.take(i + 1).last()) == Err::<
                        PlaylistItemView,
                        AttributeFault,
                    >(e@));
                    assert(playlist_of(gs.take(i + 1)) == Err::<
                        Seq<PlaylistItemView>,
                        AttributeFault,
                    >(e@));
                    lemma_playlist_error_stays(gs, i + 1);
                }
                return Err(e);
            },
        }
        i += 1;
    }
    assert(gs.take(gs.len() as int) == gs);
    Ok(Playlist { items })
}

/// Once a group describes no entry, the error stands whatever follows.
proof fn lemma_playlist_error_stays(gs: Seq<Seq<(Seq<char>, Seq<char>)>>, n: int)
    requires
        0 <= n <= gs.len(),
        playlist_of(gs.take(n)) is Err,
    ensures
        playlist_of(gs) == playlist_of(gs.take(n)),
    decreases gs.len() - n,
{
    if n == gs.len() {
        assert(gs.take(n) == gs);
    } else {
        assert(gs.take(n + 1).drop_last() == gs.take(n));
        lemma_playlist_error_stays(gs, n + 1);
    }
}

/// What changed in MPD while the client was idle.
#[derive(Debug, Clone, PartialEq, Eq)]
pub struct Changed {
    pub subsystems: Vec<String>,
}

/// A change that the server reacts to.
#[derive(Debug, Clone, Copy, PartialEq, Eq, Structural)]
pub enum MpdEvent {
    Playlist,
    Player,
}

/// The event that the subsystem `name` stands for, if the server reacts to it.
pub open spec fn event_of(name: Seq<char>) -> Option<MpdEvent> {
    if name == "player"@ {
        Some(MpdEvent::Player)
    } else if name == "playlist"@ {
        Some(MpdEvent::Playlist)
    } else {
        None
    }
}

/// The events that the subsystems `names` stand for, in order; a subsystem that the
/// server does not react to gives none.
pub open spec fn events_of(names: Seq<Seq<char>>) -> Seq<MpdEvent>
    decreases names.len(),
{
    if names.len() == 0 {
        Seq::empty()
    } else {
        match event_of(names.last()) {
            Some(e) => events_of(names.drop_last()).push(e),
            None => events_of(names.drop_last()),
        }
    }
}

impl MpdEvent {
    /// The event that the subsystem `name` stands for, if the server reacts to it.
    pub fn from_name(name: &str) -> (e: Option<MpdEvent>)
        ensures
            e == event_of(name@),
    {
        if same_text(name, "player") {
            Some(MpdEvent::Player)
        } else if same_text(name, "playlist") {
            Some(MpdEvent::Playlist)
        } else {
            None
        }
    }
}

impl std::str::FromStr for MpdEvent {
    type Err = ();

    /// Reads the name of a subsystem: the event it stands for, or an error where the
    /// server does not react to it.
    fn from_str(s: &str) -> (r: Result<MpdEvent, ()>)
        ensures
            r == match event_of(s@) {
                Some(e) => Ok::<MpdEvent, ()>(e),
                None => Err::<MpdEvent, ()>(()),
            },
    {
        match MpdEvent::from_name(s) {
            Some(e) => Ok(e),
            None => Err(()),
        }
    }
}

impl Changed {
    /// The names of the subsystems that changed.
    pub open spec fn names(&self) -> Seq<Seq<char>> {
        self.subsystems@.map_values(|s: String| s@)
    }

    /// The events among the subsystems that changed, in order.
    pub fn events(&self) -> (events: Vec<MpdEvent>)
        ensures
            events@ == events_of(self.names()),
    {
        let mut out: Vec<MpdEvent> = Vec::new();
        let mut i: usize = 0;
        let ghost names = self.names();
        assert(names.take(0).len() == 0);
        while i < self.subsystems.len()
            invariant
                i <= self.subsystems.len(),
                names == self.names(),
                out@ == events_of(names.take(i as int)),
            decreases self.subsystems.len() - i,
        {
            proof {
                assert(names.take(i + 1).drop_last() == names.take(i as int));
                assert(names.take(i + 1).last() == self.subsystems@[i as int]@);
            }
            if let Some(e) = MpdEvent::from_name(self.subsystems[i].as_str()) {
                out.push(e);
            }
            i += 1;
        }
        assert(names.take(names.len() as int) == names);
        out
    }
}

/// Reads the response to `idle`: every `changed` attribute names a subsystem.
pub fn parse_changed(attrs: &Attributes) -> (c: Changed)
    ensures
        c.names() == all_values(attrs@, "changed"@),
{
    Changed { subsystems: attrs.get_all("changed") }
}

/// Reads the response to `addid`: the identifier of the new entry.
pub fn parse_added_id(attrs: &Attributes) -> (r: Result<Id, AttributeError>)
    ensures
        r is Ok <==> first_value(attrs@, "Id"@) is Some,
        r is Ok ==> r->Ok_0@ == first_value(attrs@, "Id"@)->0,
        r is Err ==> r->Err_0@ == AttributeFault::Missing("Id"@),
{
    match required(attrs, "Id") {
        Ok(v) => Ok(Id(v)),
        Err(e) => Err(e),
    }
}

/// What the player is doing, as MPD says it.
#[derive(Debug, Clone, Copy, PartialEq, Eq, Structural)]
pub enum PlayerState {
    Stop,
    Pause,
    Play,
}

/// The state of the player.
#[derive(Debug)]
pub struct Status {
    pub state: PlayerState,
    pub song_id: Option<Id>,
    pub elapsed: Option<Seconds>,
    pub duration: Option<Seconds>,
    pub audio_format: Option<String>,
}

/// The contents of a [`Status`].
pub struct StatusView {
    pub state: PlayerState,
    pub song_id: Option<Seq<char>>,
    pub elapsed: Option<Seq<char>>,
    pub duration: Option<Seq<char>>,
    pub audio_format: Option<Seq<char>>,
}

impl View for Status {
    type V = StatusView;

    open spec fn view(&self) -> StatusView {
        StatusView {
            state: self.state,
            song_id: match self.song_id {
                Some(id) => Some(id@),
                None => None,
            },
            elapsed: match self.elapsed {
                Some(s) => Some(s.0@),
                None => None,
            },
            duration: match self.duration {
                Some(s) => Some(s.0@),
                None => None,
            },
            audio_format: opt_text(self.audio_format),
        }
    }
}

/// The state that `text` names.
pub open spec fn player_state_of(text: Seq<char>) -> Option<PlayerState> {
    if text == "play"@ {
        Some(PlayerState::Play)
    } else if text == "pause"@ {
        Some(PlayerState::Pause)
    } else if text == "stop"@ {
        Some(PlayerState::Stop)
    } else {
        None
    }
}

/// The state of the player that the attributes `attrs` describe: `state` must be there
/// and be one of `play`, `pause` and `stop`; `songid`, `elapsed`, `duration` and `audio`
/// may be there, and `elapsed` and `duration` must be numbers where they are.
pub open spec fn status_of(attrs: Seq<(Seq<char>, Seq<char>)>) -> Result<
    StatusView,
    AttributeFault,
> {
    let elapsed = first_value(attrs, "elapsed"@);
    let duration = first_value(attrs, "duration"@);
    match first_value(attrs, "state"@) {
        None => Err(AttributeFault::Missing("state"@)),
        Some(text) => match player_state_of(text) {
            None => Err(AttributeFault::Malformed("state"@, text)),
            Some(state) => if elapsed is Some && !is_float(elapsed->0) {
                Err(AttributeFault::Malformed("elapsed"@, elapsed->0))
            } else if duration is Some && !is_float(duration->0) {
                Err(AttributeFault::Malformed("duration"@, duration->0))
            } else {
                Ok(
                    StatusView {
                        state,
                        song_id: first_value(attrs, "songid"@),
                        elapsed,
                        duration,
                        audio_format: first_value(attrs, "audio"@),
                    },
                )
            },
        },
    }
}

/// The view of the result of reading a status.
pub open spec fn status_result_view(r: Result<Status, AttributeError>) -> Result<
    StatusView,
    AttributeFault,
> {
    match r {
        Ok(s) => Ok(s@),
        Err(e) => Err(e@),
    }
}

/// Reads the response to `status`.
pub fn parse_status(attrs: &Attributes) -> (r: Result<Status, AttributeError>)
    ensures
        status_result_view(r) == status_of(attrs@),
{
    let text = match required(attrs, "state") {
        Ok(v) => v,
        Err(e) => {
            return Err(e);
        },
    };
    let state = if same_text(text.as_str(), "play") {
        PlayerState::Play
    } else if same_text(text.as_str(), "pause") {
        PlayerState::Pause
    } else if same_text(text.as_str(), "stop") {
        PlayerState::Stop
    } else {
        return Err(AttributeError::Malformed("state".to_owned(), text));
    };
    let song_id = match optional(attrs, "songid") {
        Some(v) => Some(Id(v)),
        None => None,
    };
    let elapsed = match optional(attrs, "elapsed") {
        Some(v) => {
            if !is_number(v.as_str()) {
                return Err(AttributeError::Malformed("elapsed".to_owned(), v));
            }
            Some(Seconds(v))
        },
        None => None,
    };
    let duration = match optional(attrs, "duration") {
        Some(v) => {
            if !is_number(v.as_str()) {
                return Err(AttributeError::Malformed("duration".to_owned(), v));
            }
            Some(Seconds(v))
        },
        None => None,
    };
    let audio_format = optional(attrs, "audio");
    Ok(Status { state, song_id, elapsed, duration, audio_format })
}

/// A command that the server sends to MPD.
#[derive(Debug)]
pub enum Command {
    AddId(String),
    DeleteId(Id),
    Clear,
    PlaylistInfo,
    PlaylistId(Id),
    Idle,
    Play,
    PlayId(Id),
    Stop,
    Pause,
    Next,
    Previous,
    Status,
}

impl Command {
    /// The name of this command on the wire.
    pub open spec fn name(&self) -> Seq<char> {
        match self {
            Command::AddId(_) => "addid"@,
            Command::DeleteId(_) => "deleteid"@,
            Command::Clear => "clear"@,
            Command::PlaylistInfo => "playlistinfo"@,
            Command::PlaylistId(_) => "playlistid"@,
            Command::Idle => "idle"@,
            Command::Play => "play"@,
            Command::PlayId(_) => "playid"@,
            Command::Stop => "stop"@,
            Command::Pause => "pause"@,
            Command::Next => "next"@,
            Command::Previous => "previous"@,
            Command::Status => "status"@,
        }
    }

    /// The arguments of this command.
    pub open spec fn args(&self) -> Seq<Seq<char>> {
        match self {
            Command::AddId(uri) => seq![uri@],
            Command::DeleteId(id) => seq![id@],
            Command::PlaylistId(id) => seq![id@],
            Command::PlayId(id) => seq![id@],
            _ => Seq::empty(),
        }
    }

    /// The line that sends this command. A command whose argument holds a line feed is
    /// refused.
    pub fn frame(&self) -> (r: Result<String, ProtocolError>)
        ensures
            r is Ok <==> !(self.args().len() == 1 && self.args()[0].contains('\n')),
            r is Ok ==> r->Ok_0@ == command_line(self.name(), self.args()),
            r is Err ==> r->Err_0 is NewlineInArgument,
    {
        match self {
            Command::AddId(uri) => one_argument("addid", uri.as_str()),
            Command::DeleteId(id) => one_argument("deleteid", id.as_str()),
            Command::PlaylistId(id) => one_argument("playlistid", id.as_str()),
            Command::PlayId(id) => one_argument("playid", id.as_str()),
            Command::Clear => no_argument("clear"),
            Command::PlaylistInfo => no_argument("playlistinfo"),
            Command::Idle => no_argument("idle"),
            Command::Play => no_argument("play"),
            Command::Stop => no_argument("stop"),
            Command::Pause => no_argument("pause"),
            Command::Next => no_argument("next"),
            Command::Previous => no_argument("previous"),
            Command::Status => no_argument("status"),
        }
    }
}

/// The line that sends the command `name` with the one argument `arg`.
fn one_argument(name: &str, arg: &str) -> (r: Result<String, ProtocolError>)
    ensures
        r is Ok <==> !arg@.contains('\n'),
        r is Ok ==> r->Ok_0@ == command_line(name@, seq![arg@]),
        r is Err ==> r->Err_0 is NewlineInArgument,
{
    let args = [arg];
    assert(args_view(args@) =~= seq![arg@]);
    assert(args_view(args@)[0] == arg@);
    format_command(name, &args)
}

/// The line that sends the command `name` without arguments.
fn no_argument(name: &str) -> (r: Result<String, ProtocolError>)
    ensures
        r is Ok,
        r->Ok_0@ == command_line(name@, Seq::empty()),
{
    let args: [&str; 0] = [];
    assert(args_view(args@) =~= Seq::<Seq<char>>::empty());
    format_command(name, &args)
}

/// What MPD answers to a command.
#[derive(Debug)]
pub enum Reply {
    /// The command was carried out; it has no other answer.
    Done,
    /// The identifier of the entry added.
    Added(Id),
    /// The queue.
    Playlist(Playlist),
    /// One entry of the queue.
    Item(PlaylistItem),
    /// What changed.
    Changed(Changed),
    /// The state of the player.
    Status(Status),
}

/// The view of the result of reading an identifier.
pub open spec fn added_result_view(attrs: Seq<(Seq<char>, Seq<char>)>) -> Result<
    Seq<char>,
    AttributeFault,
> {
    match first_value(attrs, "Id"@) {
        Some(id) => Ok(id),
        None => Err(AttributeFault::Missing("Id"@)),
    }
}

impl Command {
    /// Reads the answer to this command. `outcome` is what reading the response came
    /// to: a failure of the protocol, a refusal, or the attributes of a success, which
    /// are read as the command promises.
    pub fn answer(&self, outcome: Result<Result<OkResponse, ErrorAck>, ProtocolError>) -> (r: Result<
        Reply,
        MpdError,
    >)
        ensures
            match outcome {
                Err(e) => r == Err::<Reply, MpdError>(MpdError::Protocol(e)),
                Ok(Err(ack)) => r == Err::<Reply, MpdError>(MpdError::ErrorAck(ack)),
                Ok(Ok(response)) => match self {
                    Command::AddId(_) => match added_result_view(response.attributes@) {
                        Ok(id) => r is Ok && r->Ok_0 is Added && r->Ok_0->Added_0@ == id,
                        Err(e) => r is Err && r->Err_0 is Attribute && r->Err_0->Attribute_0@ == e,
                    },
                    Command::PlaylistInfo => match playlist_of(
                        groups(response.attributes@, "file"@),
                    ) {
                        Ok(items) => r is Ok && r->Ok_0 is Playlist && r->Ok_0->Playlist_0@ == items,
                        Err(e) => r is Err && r->Err_0 is Attribute && r->Err_0->Attribute_0@ == e,
                    },
                    Command::PlaylistId(_) => match playlist_item_of(response.attributes@) {
                        Ok(item) => r is Ok && r->Ok_0 is Item && r->Ok_0->Item_0@ == item,
                        Err(e) => r is Err && r->Err_0 is Attribute && r->Err_0->Attribute_0@ == e,
                    },
                    Command::Idle => r is Ok && r->Ok_0 is Changed && r->Ok_0->Changed_0.names()
                        == all_values(response.attributes@, "changed"@),
                    Command::Status => match status_of(response.attributes@) {
                        Ok(status) => r is Ok && r->Ok_0 is Status && r->Ok_0->Status_0@ == status,
                        Err(e) => r is Err && r->Err_0 is Attribute && r->Err_0->Attribute_0@ == e,
                    },
                    _ => r is Ok && r->Ok_0 is Done,
                },
            },
    {
        let response = match outcome {
            Err(e) => {
                return Err(MpdError::Protocol(e));
            },
            Ok(Err(ack)) => {
                return Err(MpdError::ErrorAck(ack));
            },
            Ok(Ok(response)) => response,
        };
        let attrs = &response.attributes;
        match self {
            Command::AddId(_) => match parse_added_id(attrs) {
                Ok(id) => Ok(Reply::Added(id)),
                Err(e) => Err(MpdError::Attribute(e)),
            },
            Command::PlaylistInfo => match parse_playlist(attrs) {
                Ok(playlist) => Ok(Reply::Playlist(playlist)),
                Err(e) => Err(MpdError::Attribute(e)),
            },
            Command::PlaylistId(_) => match parse_playlist_item(attrs) {
                Ok(item) => Ok(Reply::Item(item)),
                Err(e) => Err(MpdError::Attribute(e)),
            },
            Command::Idle => Ok(Reply::Changed(parse_changed(attrs))),
            Command::Status => match parse_status(attrs) {
                Ok(status) => Ok(Reply::Status(status)),
                Err(e) => Err(MpdError::Attribute(e)),
            },
            _ => Ok(Reply::Done),
        }
    }
}

} // verus!
