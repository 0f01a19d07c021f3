//! Maintenance of MPD's queue: a radio stream has no end, so entries of radio stations
//! that are not playing are taken out of the queue when the player moves on.

use crate::metadata::TrackKind;
use crate::mpd::{opt_id, Id, MpdEvent, PlaylistItem, PlaylistItemView};
use vstd::prelude::*;

verus! {

/// The seconds to wait before a session that could not be opened is tried again.
pub const RETRY_SECONDS: u64 = 5;

/// Whether a change reported by MPD calls for maintenance: one of the player does.
pub fn calls_for_trim(event: MpdEvent) -> (yes: bool)
    ensures
        yes == (event == MpdEvent::Player),
{
    match event {
        MpdEvent::Player => true,
        MpdEvent::Playlist => false,
    }
}

/// Whether `item` is the entry that is playing.
pub fn is_current(item: &PlaylistItem, current: &Option<Id>) -> (yes: bool)
    ensures
        yes == (*current is Some && current->0@ == item.id@),
{
    match current {
        Some(id) => item.id == *id,
        None => false,
    }
}

/// Whether an entry of this kind is taken out when it is not playing.
pub fn is_radio(kind: &TrackKind) -> (yes: bool)
    ensures
        yes == (*kind is Radio),
{
    match kind {
        TrackKind::Radio(_) => true,
        _ => false,
    }
}

/// The identifiers of the entries to take out: those of `entries` that are radio
/// stations and are not `current`, in order.
pub open spec fn history(entries: Seq<(PlaylistItemView, bool)>, current: Option<Seq<char>>) -> Seq<
    Seq<char>,
>
    decreases entries.len(),
{
    if entries.len() == 0 {
        Seq::empty()
    } else {
        let before = history(entries.drop_last(), current);
        let (item, radio) = entries.last();
        if radio && current != Some(item.id) {
            before.push(item.id)
        } else {
            before
        }
    }
}

/// The entries that stay: those of `entries` that are no radio stations, and the one
/// that is `current`, in order.
pub open spec fn remaining(entries: Seq<(PlaylistItemView, bool)>, current: Option<Seq<char>>) -> Seq<
    PlaylistItemView,
>
    decreases entries.len(),
{
    if entries.len() == 0 {
        Seq::empty()
    } else {
        let before = remaining(entries.drop_last(), current);
        let (item, radio) = entries.last();
        if radio && current != Some(item.id) {
            before
        } else {
            before.push(item)
        }
    }
}

/// The contents of a list of entries, each with whether it is a radio station.
pub open spec fn entries_view(entries: Seq<(PlaylistItem, bool)>) -> Seq<(PlaylistItemView, bool)> {
    entries.map_values(|e: (PlaylistItem, bool)| (e.0@, e.1))
}

/// The entries of the queue to take out after the player moved on. Each entry comes
/// with whether it is a radio station; `current` is the entry that is playing.
pub fn clear_radio_stations_from_history(entries: &Vec<(PlaylistItem, bool)>, current: &Option<Id>) -> (ids:
    Vec<Id>)
    ensures
        ids@.map_values(|id: Id| id@) == history(entries_view(entries@), opt_id(*current)),
{
    let mut ids: Vec<Id> = Vec::new();
    let ghost all = entries_view(entries@);
    let ghost cur = opt_id(*current);
    let mut i: usize = 0;
    assert(all.take(0).len() == 0);
    assert(ids@.map_values(|id: Id| id@) =~= Seq::<Seq<char>>::empty());
    while i < entries.len()
        invariant
            i <= entries.len(),
            all == entries_view(entries@),
            cur == opt_id(*current),
            ids@.map_values(|id: Id| id@) == history(all.take(i as int), cur),
        decreases entries.len() - i,
    {
        proof {
            assert(all.take(i + 1).drop_last() == all.take(i as int));
            assert(all.take(i + 1).last() == (entries@[i as int].0@, entries@[i as int].1));
        }
        if entries[i].1 && !is_current(&entries[i].0, current) {
            let ghost before = ids@;
            let id = entries[i].0.id.clone();
            ids.push(id);
            assert(ids@.map_values(|id: Id| id@) =~= before.map_values(|id: Id| id@).push(id@));
        }
        i += 1;
    }
    assert(all.take(all.len() as int) == all);
    ids
}

/// Maintenance takes out radio stations and nothing else: every entry is either taken
/// out or stays; what stays is every entry that is no radio station and the entry that
/// is playing; and what is taken out is a radio station that is not playing.
pub proof fn law_trim_is_exact(entries: Seq<(PlaylistItemView, bool)>, current: Option<Seq<char>>)
    ensures
        history(entries, current).len() + remaining(entries, current).len() == entries.len(),
        forall|i: int|
            0 <= i < entries.len() && !(#[trigger] entries[i]).1 ==> remaining(
                entries,
                current,
            ).contains(entries[i].0),
        forall|i: int|
            0 <= i < entries.len() && current == Some((#[trigger] entries[i]).0.id)
                ==> remaining(entries, current).contains(entries[i].0),
        forall|id: Seq<char>|
            history(entries, current).contains(id) ==> current != Some(id) && exists|i: int|
                0 <= i < entries.len() && (#[trigger] entries[i]).1 && entries[i].0.id == id,
    decreases entries.len(),
{
    if entries.len() > 0 {
        let init = entries.drop_last();
        let (item, radio) = entries.last();
        law_trim_is_exact(init, current);
        let h = history(entries, current);
        let r = remaining(entries, current);
        assert forall|i: int| 0 <= i < entries.len() && !(#[trigger] entries[i]).1 implies r.contains(
            entries[i].0,
        ) by {
            if i < init.len() {
                assert(init[i] == entries[i]);
                let k = choose|k: int|
                    0 <= k < remaining(init, current).len() && remaining(init, current)[k]
                        == entries[i].0;
                assert(r[k] == entries[i].0);
            } else {
                assert(r.last() == item);
            }
        }
        assert forall|i: int|
            0 <= i < entries.len() && current == Some((#[trigger] entries[i]).0.id) implies r.contains(
            entries[i].0,
        ) by {
            if i < init.len() {
                assert(init[i] == entries[i]);
                let k = choose|k: int|
                    0 <= k < remaining(init, current).len() && remaining(init, current)[k]
                        == entries[i].0;
                assert(r[k] == entries[i].0);
            } else {
                assert(r.last() == item);
            }
        }
        assert forall|id: Seq<char>| h.contains(id) implies current != Some(id) && exists|i: int|
            0 <= i < entries.len() && (#[trigger] entries[i]).1 && entries[i].0.id == id by {
            let k = choose|k: int| 0 <= k < h.len() && h[k] == id;
            if k < history(init, current).len() {
                assert(history(init, current)[k] == id);
                assert(history(init, current).contains(id));
                let j = choose|j: int|
                    0 <= j < init.len() && (#[trigger] init[j]).1 && init[j].0.id == id;
                assert(entries[j] == init[j]);
            } else {
                assert(entries[entries.len() - 1] == entries.last());
            }
        }
    }
}

} // verus!
