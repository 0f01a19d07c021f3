use hailsplay::mpd::Changed;
use hailsplay::protocol::{
    PlayState, PlayerStatus, Queue, QueueItem, ServerMessage, TrackId, TrackInfo,
};
use hailsplay::session::{start, Session, TrackLookup, Want};

fn info(label: &str) -> TrackInfo {
    TrackInfo { image_url: None, primary_label: label.to_string(), secondary_label: None }
}

fn queue(ids: &[&str]) -> Queue {
    Queue {
        items: ids
            .iter()
            .enumerate()
            .map(|(i, id)| QueueItem {
                id: TrackId(id.to_string()),
                position: i as i64,
                track: info(id),
            })
            .collect(),
    }
}

fn player(track: Option<&str>) -> PlayerStatus {
    PlayerStatus {
        track: track.map(|t| TrackId(t.to_string())),
        state: PlayState::Playing,
        position: None,
    }
}

fn changed(names: &[&str]) -> Changed {
    Changed { subsystems: names.iter().map(|n| n.to_string()).collect() }
}

#[test]
fn fresh_session_sends_everything() {
    let mut session = Session::new();
    assert!(session.playlist);
    assert!(session.player);
    assert_eq!(session.current_track, None);
    assert_eq!(session.next(), Want::Queue);
    let frame = session.on_queue(queue(&["1"]));
    assert_eq!(frame, ServerMessage::Queue { queue: queue(&["1"]) });
    assert_eq!(session.next(), Want::Status);
    let lookup = session.on_status(&player(Some("1")));
    assert!(matches!(&lookup, TrackLookup::Changed(Some(id)) if *id == TrackId("1".to_string())));
    let frames = session.player_frames(lookup, Some(info("one")), player(Some("1")));
    assert_eq!(
        frames,
        vec![
            ServerMessage::TrackChange { track: Some(info("one")) },
            ServerMessage::Player { player: player(Some("1")) },
        ]
    );
    assert_eq!(session.next(), Want::Idle);
    assert_eq!(session.current_track, Some(TrackId("1".to_string())));
}

#[test]
fn track_change_is_sent_only_when_the_track_differs() {
    let mut session = Session::new();
    session.on_queue(queue(&[]));
    let lookup = session.on_status(&player(None));
    assert!(matches!(lookup, TrackLookup::Unchanged));
    assert_eq!(
        session.player_frames(lookup, None, player(None)),
        vec![ServerMessage::Player { player: player(None) }]
    );
    session.on_idle(&changed(&["player"]));
    let lookup = session.on_status(&player(Some("2")));
    assert!(matches!(lookup, TrackLookup::Changed(Some(_))));
    session.player_frames(lookup, Some(info("two")), player(Some("2")));
    session.on_idle(&changed(&["player"]));
    let lookup = session.on_status(&player(Some("2")));
    assert!(matches!(lookup, TrackLookup::Unchanged));
    session.player_frames(lookup, None, player(Some("2")));
    session.on_idle(&changed(&["player"]));
    let lookup = session.on_status(&player(None));
    assert!(matches!(lookup, TrackLookup::Changed(None)));
    assert_eq!(
        session.player_frames(lookup, None, player(None)),
        vec![
            ServerMessage::TrackChange { track: None },
            ServerMessage::Player { player: player(None) },
        ]
    );
    assert_eq!(session.current_track, None);
}

#[test]
fn idle_marks_what_changed() {
    let (mut session, _) = start(queue(&[]), player(None), None);
    assert_eq!(session.next(), Want::Idle);
    session.on_idle(&changed(&["mixer", "output"]));
    assert_eq!(session.next(), Want::Idle);
    session.on_idle(&changed(&["player"]));
    assert!(!session.playlist);
    assert!(session.player);
    assert_eq!(session.next(), Want::Status);
    session.on_idle(&changed(&["playlist", "mixer"]));
    assert!(session.playlist);
    assert!(session.player);
    assert_eq!(session.next(), Want::Queue);
    session.on_queue(queue(&[]));
    assert_eq!(session.next(), Want::Status);
    session.on_idle(&changed(&[]));
    assert_eq!(session.next(), Want::Status);
}

#[test]
fn start_sends_queue_then_track_then_player() {
    let (session, frames) = start(queue(&["1", "2"]), player(Some("2")), Some(info("two")));
    assert_eq!(
        frames,
        vec![
            ServerMessage::Queue { queue: queue(&["1", "2"]) },
            ServerMessage::TrackChange { track: Some(info("two")) },
            ServerMessage::Player { player: player(Some("2")) },
        ]
    );
    assert_eq!(session.next(), Want::Idle);
    assert_eq!(session.current_track, Some(TrackId("2".to_string())));
}

#[test]
fn start_without_current_track() {
    let (_, frames) = start(queue(&[]), player(None), None);
    assert_eq!(
        frames,
        vec![
            ServerMessage::Queue { queue: queue(&[]) },
            ServerMessage::Player { player: player(None) },
        ]
    );
}

#[test]
fn sessions_start_alike() {
    let (_, first) = start(queue(&["1"]), player(Some("1")), Some(info("one")));
    let (_, second) = start(queue(&["1"]), player(Some("1")), Some(info("one")));
    assert_eq!(first, second);
    assert_eq!(format!("{:?}", first), format!("{:?}", second));
}
