//! From MPD's view of the player and the queue to what clients are told.

use crate::mpd::{Id, PlayerState, Playlist, PlaylistItem, Seconds, Status};
use crate::protocol::{
    Metadata, PlayPosition, PlayState, PlayerStatus, Queue, QueueItem, TrackId, TrackInfo,
};
use crate::text::opt_text;
use vstd::prelude::*;

verus! {

/// What the player is doing: a player that plays without an audio format yet is still
/// loading its stream; one that is paused or stopped counts as stopped.
pub open spec fn play_state_of(state: PlayerState, has_audio_format: bool) -> PlayState {
    if state == PlayerState::Play {
        if has_audio_format {
            PlayState::Playing
        } else {
            PlayState::Loading
        }
    } else {
        PlayState::Stopped
    }
}

/// What the player is doing, as clients see it.
pub fn play_state(status: &Status) -> (state: PlayState)
    ensures
        state == play_state_of(status.state, status.audio_format is Some),
{
    match status.state {
        PlayerState::Play => {
            if status.audio_format.is_none() {
                PlayState::Loading
            } else {
                PlayState::Playing
            }
        },
        _ => PlayState::Stopped,
    }
}

/// The text for no seconds at all.
pub open spec fn zero_seconds() -> Seq<char> {
    "0"@
}

/// How far the player is into the current track: nothing where MPD tells neither the
/// time elapsed nor the duration; a stream where it tells no duration; else the two,
/// with a time elapsed of zero where MPD tells none.
pub fn play_position(status: &Status) -> (position: Option<PlayPosition>)
    ensures
        match (status.elapsed, status.duration) {
            (None, None) => position is None,
            (Some(_), None) => position == Some(PlayPosition::Streaming),
            (Some(time), Some(duration)) => position is Some && position->0 is Elapsed
                && position->0->time.0@ == time.0@ && position->0->duration.0@ == duration.0@,
            (None, Some(duration)) => position is Some && position->0 is Elapsed
                && position->0->time.0@ == zero_seconds() && position->0->duration.0@
                == duration.0@,
        },
{
    match (&status.elapsed, &status.duration) {
        (None, None) => None,
        (Some(_), None) => Some(PlayPosition::Streaming),
        (Some(time), Some(duration)) => Some(
            PlayPosition::Elapsed {
                time: Seconds(time.0.clone()),
                duration: Seconds(duration.0.clone()),
            },
        ),
        (None, Some(duration)) => Some(
            PlayPosition::Elapsed {
                time: Seconds("0".to_owned()),
                duration: Seconds(duration.0.clone()),
            },
        ),
    }
}

/// The state of the player, as clients see it.
pub fn status(mpd: &Status) -> (player: PlayerStatus)
    ensures
        player.state == play_state_of(mpd.state, mpd.audio_format is Some),
        match mpd.song_id {
            Some(id) => player.track is Some && player.track->0@ == id@,
            None => player.track is None,
        },
        match (mpd.elapsed, mpd.duration) {
            (None, None) => player.position is None,
            (Some(_), None) => player.position == Some(PlayPosition::Streaming),
            (Some(time), Some(duration)) => player.position is Some && player.position->0 is Elapsed
                && player.position->0->time.0@ == time.0@ && player.position->0->duration.0@
                == duration.0@,
            (None, Some(duration)) => player.position is Some && player.position->0 is Elapsed
                && player.position->0->time.0@ == zero_seconds()
                && player.position->0->duration.0@ == duration.0@,
        },
{
    let track = match &mpd.song_id {
        Some(id) => Some(TrackId::from(id.clone())),
        None => None,
    };
    PlayerStatus { track, state: play_state(mpd), position: play_position(mpd) }
}

/// The entry of the queue for `item`, shown as `track`.
pub fn queue_item(item: &PlaylistItem, track: TrackInfo) -> (entry: QueueItem)
    ensures
        entry.id@ == item.id@,
        entry.position == item.pos,
        entry.track == track,
{
    QueueItem { id: TrackId::from(item.id.clone()), position: item.pos, track }
}

/// The queue: one entry for each entry of MPD's queue, shown as the track that stands
/// beside it.
pub fn queue(entries: &Vec<(PlaylistItem, TrackInfo)>) -> (queue: Queue)
    ensures
        queue.items@.len() == entries@.len(),
        forall|i: int|
            0 <= i < queue.items@.len() ==> (#[trigger] queue.items@[i]).id@ == entries@[i].0.id@
                && queue.items@[i].position == entries@[i].0.pos && queue.items@[i].track@
                == entries@[i].1@,
{
    let mut items: Vec<QueueItem> = Vec::new();
    let mut i: usize = 0;
    while i < entries.len()
        invariant
            i <= entries.len(),
            items@.len() == i,
            forall|k: int|
                0 <= k < i ==> (#[trigger] items@[k]).id@ == entries@[k].0.id@
                    && items@[k].position == entries@[k].0.pos && items@[k].track@
                    == entries@[k].1@,
        decreases entries.len() - i,
    {
        items.push(queue_item(&entries[i].0, entries[i].1.clone()));
        i += 1;
    }
    Queue { items }
}

/// Whether the entry just added is to be played at once: it is where the queue holds
/// that entry and no other.
pub fn should_autoplay(playlist: &Playlist, added: &Id) -> (play: bool)
    ensures
        play == (playlist.items@.len() == 1 && playlist.items@[0].id@ == added@),
{
    if playlist.items.len() != 1 {
        return false;
    }
    playlist.items[0].id == *added
}

/// What the extractor says of the media at `url`, as clients see it: the URL stands
/// in for a missing title.
pub fn metadata_reply(metadata: crate::ytdlp::Metadata, url: &str) -> (reply: Metadata)
    ensures
        reply.title@ == match metadata.title {
            Some(t) => t@,
            None => url@,
        },
        opt_text(reply.artist) == opt_text(metadata.uploader),
        opt_text(reply.thumbnail) == opt_text(metadata.thumbnail),
{
    let title = match metadata.title {
        Some(t) => t,
        None => url.to_owned(),
    };
    Metadata { title, artist: metadata.uploader, thumbnail: metadata.thumbnail }
}

} // verus!
