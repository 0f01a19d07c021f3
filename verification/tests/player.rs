use hailsplay::mpd::{Id, PlayerState, Playlist, PlaylistItem, Seconds, Status};
use hailsplay::player::{metadata_reply, play_position, play_state, queue, queue_item, should_autoplay, status};
use hailsplay::protocol::{Metadata, PlayPosition, PlayState, PlayerStatus, TrackId, TrackInfo};

fn mpd_status(
    state: PlayerState,
    song_id: Option<&str>,
    elapsed: Option<&str>,
    duration: Option<&str>,
    audio: Option<&str>,
) -> Status {
    Status {
        state,
        song_id: song_id.map(Id::from_text),
        elapsed: elapsed.map(|s| Seconds(s.to_string())),
        duration: duration.map(|s| Seconds(s.to_string())),
        audio_format: audio.map(str::to_string),
    }
}

fn item(file: &str, pos: i64, id: &str) -> PlaylistItem {
    PlaylistItem { file: file.to_string(), pos, id: Id::from_text(id), name: None, title: None }
}

fn info(label: &str) -> TrackInfo {
    TrackInfo { image_url: None, primary_label: label.to_string(), secondary_label: None }
}

#[test]
fn playing_without_audio_format_is_loading() {
    assert_eq!(play_state(&mpd_status(PlayerState::Play, None, None, None, None)), PlayState::Loading);
    assert_eq!(
        play_state(&mpd_status(PlayerState::Play, None, None, None, Some("44100:16:2"))),
        PlayState::Playing
    );
}

#[test]
fn paused_and_stopped_are_stopped() {
    for state in [PlayerState::Pause, PlayerState::Stop] {
        assert_eq!(play_state(&mpd_status(state, None, None, None, None)), PlayState::Stopped);
        assert_eq!(play_state(&mpd_status(state, None, None, None, Some("a"))), PlayState::Stopped);
    }
}

#[test]
fn position_of_the_player() {
    let s = |e, d| mpd_status(PlayerState::Play, None, e, d, None);
    assert_eq!(play_position(&s(None, None)), None);
    assert_eq!(play_position(&s(Some("1.5"), None)), Some(PlayPosition::Streaming));
    assert_eq!(
        play_position(&s(Some("1.5"), Some("200"))),
        Some(PlayPosition::Elapsed {
            time: Seconds("1.5".to_string()),
            duration: Seconds("200".to_string())
        })
    );
    assert_eq!(
        play_position(&s(None, Some("200"))),
        Some(PlayPosition::Elapsed {
            time: Seconds("0".to_string()),
            duration: Seconds("200".to_string())
        })
    );
}

#[test]
fn zero_seconds_is_zero() {
    let position = play_position(&mpd_status(PlayerState::Play, None, None, Some("3"), None));
    let Some(PlayPosition::Elapsed { time, .. }) = position else { panic!("no position") };
    assert_eq!(time.0.parse::<f64>().unwrap(), 0.0);
}

#[test]
fn status_for_clients() {
    let player = status(&mpd_status(PlayerState::Play, Some("5"), Some("1"), Some("2"), Some("f")));
    assert_eq!(
        player,
        PlayerStatus {
            track: Some(TrackId("5".to_string())),
            state: PlayState::Playing,
            position: Some(PlayPosition::Elapsed {
                time: Seconds("1".to_string()),
                duration: Seconds("2".to_string())
            }),
        }
    );
    let stopped = status(&mpd_status(PlayerState::Stop, None, None, None, None));
    assert_eq!(stopped, PlayerStatus { track: None, state: PlayState::Stopped, position: None });
}

#[test]
fn queue_entries() {
    let entry = queue_item(&item("f", 4, "9"), info("L"));
    assert_eq!(entry.id, TrackId("9".to_string()));
    assert_eq!(entry.position, 4);
    assert_eq!(entry.track, info("L"));
    let q = queue(&vec![(item("a", 0, "1"), info("A")), (item("b", 1, "2"), info("B"))]);
    assert_eq!(q.items.len(), 2);
    assert_eq!(q.items[0].id, TrackId("1".to_string()));
    assert_eq!(q.items[0].position, 0);
    assert_eq!(q.items[0].track, info("A"));
    assert_eq!(q.items[1].id, TrackId("2".to_string()));
    assert_eq!(q.items[1].position, 1);
    assert_eq!(q.items[1].track, info("B"));
    assert!(queue(&Vec::new()).items.is_empty());
}

#[test]
fn autoplay_when_the_added_entry_is_alone() {
    let playlist = Playlist { items: vec![item("f", 0, "7")] };
    assert!(should_autoplay(&playlist, &Id::from_text("7")));
}

#[test]
fn no_autoplay_when_the_queue_holds_more() {
    let playlist = Playlist { items: vec![item("old", 0, "6"), item("f", 1, "7")] };
    assert!(!should_autoplay(&playlist, &Id::from_text("7")));
    assert!(!should_autoplay(&playlist, &Id::from_text("6")));
}

#[test]
fn no_autoplay_when_the_entry_is_another_one() {
    let playlist = Playlist { items: vec![item("f", 0, "8")] };
    assert!(!should_autoplay(&playlist, &Id::from_text("7")));
    assert!(!should_autoplay(&Playlist { items: vec![] }, &Id::from_text("7")));
}

fn extractor_metadata(title: Option<&str>) -> hailsplay::ytdlp::Metadata {
    hailsplay::ytdlp::Metadata {
        title: title.map(str::to_string),
        full_title: None,
        uploader: Some("U".to_string()),
        uploader_url: None,
        description: None,
        webpage_url: None,
        genre: None,
        thumbnail: Some("https://example/t.jpg".to_string()),
        ext: "opus".to_string(),
        audio_ext: "opus".to_string(),
        video_ext: "none".to_string(),
    }
}

#[test]
fn metadata_for_clients() {
    assert_eq!(
        metadata_reply(extractor_metadata(Some("T")), "https://example/v1"),
        Metadata {
            title: "T".to_string(),
            artist: Some("U".to_string()),
            thumbnail: Some("https://example/t.jpg".to_string()),
        }
    );
    assert_eq!(
        metadata_reply(extractor_metadata(None), "https://example/v1").title,
        "https://example/v1"
    );
}

#[test]
fn track_ids_compare_by_text() {
    assert_eq!(TrackId::from(Id::from_text("4")), TrackId("4".to_string()));
    assert_eq!(Id::from(TrackId("4".to_string())), Id::from_text("4"));
    assert_ne!(TrackId("4".to_string()), TrackId("5".to_string()));
    assert_eq!(TrackId("4".to_string()).clone(), TrackId("4".to_string()));
    let i = info("x");
    assert_eq!(i.clone(), i);
}
