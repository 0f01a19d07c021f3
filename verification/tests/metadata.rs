use hailsplay::archive::{ArchiveRecord, ArchiveRecordId, MediaStreamId, MemoryRecord, MetadataParseError, RecordKind};
use hailsplay::asset::AssetId;
use hailsplay::fs::OwnedDir;
use hailsplay::metadata::{
    fallback_item, identify, media_stream_item, media_track_info, radio_track_info, RadioItem,
    Station, StationId, TrackInfoError, TrackKind,
};
use hailsplay::mpd::{Id, PlaylistItem};
use hailsplay::protocol::TrackInfo;
use hailsplay::ytdlp::{DownloadHandle, Metadata, Progress};
use std::sync::Arc;

const ID: u128 = 0x550e8400_e29b_41d4_a716_446655440000;
const ID_TEXT: &str = "550e8400-e29b-41d4-a716-446655440000";

fn item(file: &str, title: Option<&str>, name: Option<&str>) -> PlaylistItem {
    PlaylistItem {
        file: file.to_string(),
        pos: 0,
        id: Id::from_text("1"),
        name: name.map(str::to_string),
        title: title.map(str::to_string),
    }
}

fn station() -> Station {
    Station {
        name: "Radio One".to_string(),
        icon: AssetId(2),
        stream_url: "http://radio/one".to_string(),
    }
}

fn metadata(title: Option<&str>) -> Metadata {
    Metadata {
        title: title.map(str::to_string),
        full_title: None,
        uploader: Some("Uploader".to_string()),
        uploader_url: None,
        description: None,
        webpage_url: None,
        genre: None,
        thumbnail: Some("https://example/t.jpg".to_string()),
        ext: "opus".to_string(),
        audio_ext: "opus".to_string(),
        video_ext: "none".to_string(),
    }
}

fn memory(title: Option<&str>) -> RecordKind {
    let dir = OwnedDir::create("/work/x".to_string()).into_shared();
    let download = DownloadHandle {
        file: dir.claim_external_file("v1.opus").unwrap().into_shared(),
        filename: "v1.opus".to_string(),
        thumbnail: None,
        metadata: metadata(title),
        metadata_file: dir.claim_external_file("v1.info.json").unwrap().into_shared(),
        progress: Progress { downloaded_bytes: 0, total_bytes: 1 },
    };
    RecordKind::Memory(Arc::new(MemoryRecord {
        id: MediaStreamId(ID),
        url: "u".to_string(),
        download: Arc::new(download),
    }))
}


fn unreadable() -> Arc<serde_json::Error> {
    Arc::new(serde_json::from_str::<serde_json::Value>("{\"title\": ").unwrap_err())
}

fn archived(metadata: Option<Metadata>) -> RecordKind {
    let metadata = metadata.ok_or_else(unreadable);
    RecordKind::Archive(
        ArchiveRecordId(5),
        ArchiveRecord {
            filename: "old.mp3".to_string(),
            canonical_url: "c".to_string(),
            archived_at: "t".to_string(),
            stream_uuid: MediaStreamId(ID),
            thumbnail_id: None,
            metadata,
        },
    )
}

#[test]
fn stream_of_the_server_is_a_media_candidate() {
    let file = format!("http://127.0.0.1:3000/media/{}/stream", ID_TEXT);
    assert_eq!(media_stream_item(&item(&file, None, None)), Some(MediaStreamId(ID)));
    let file = format!("https://host/media/{}/stream?x=1#y", ID_TEXT.to_uppercase());
    assert_eq!(media_stream_item(&item(&file, None, None)), Some(MediaStreamId(ID)));
}

#[test]
fn other_files_are_no_media_candidates() {
    for file in [
        "http://radio/one".to_string(),
        "v1.opus".to_string(),
        format!("/media/{}/stream", ID_TEXT),
        format!("http://h/media/{}/stream/", ID_TEXT),
        format!("http://h/x/media/{}/stream", ID_TEXT),
        "http://h/media/not-a-uuid/stream".to_string(),
        "http://h/media//stream".to_string(),
        String::new(),
    ] {
        assert_eq!(media_stream_item(&item(&file, None, None)), None, "{:?}", file);
    }
}

#[test]
fn identify_puts_media_before_radio() {
    let it = item("f", Some("Now playing"), None);
    assert!(matches!(
        identify(&it, Some(MediaStreamId(ID)), Some(station())),
        TrackKind::Media(MediaStreamId(ID))
    ));
    assert!(matches!(identify(&it, Some(MediaStreamId(ID)), None), TrackKind::Media(_)));
    match identify(&it, None, Some(station())) {
        TrackKind::Radio(radio) => {
            assert_eq!(radio.station, station());
            assert_eq!(radio.title.as_deref(), Some("Now playing"));
        }
        other => panic!("unexpected kind: {:?}", other),
    }
    match identify(&it, None, None) {
        TrackKind::Unknown(unknown) => {
            assert_eq!(unknown.file, "f");
            assert_eq!(unknown.title.as_deref(), Some("Now playing"));
            assert_eq!(unknown.id, Id::from_text("1"));
        }
        other => panic!("unexpected kind: {:?}", other),
    }
}

#[test]
fn media_is_shown_with_title_and_uploader() {
    let info = media_track_info(MediaStreamId(ID), Some(&memory(Some("Title")))).unwrap();
    assert_eq!(
        info,
        TrackInfo {
            image_url: Some("https://example/t.jpg".to_string()),
            primary_label: "Title".to_string(),
            secondary_label: Some("Uploader".to_string()),
        }
    );
}

#[test]
fn media_without_title_is_shown_under_its_file_name() {
    let info = media_track_info(MediaStreamId(ID), Some(&memory(None))).unwrap();
    assert_eq!(info.primary_label, "v1.opus");
    let info = media_track_info(MediaStreamId(ID), Some(&archived(Some(metadata(None))))).unwrap();
    assert_eq!(info.primary_label, "old.mp3");
    let info = media_track_info(MediaStreamId(ID), Some(&archived(Some(metadata(Some("T")))))).unwrap();
    assert_eq!(info.primary_label, "T");
}

#[test]
fn media_that_cannot_be_shown() {
    assert!(matches!(
        media_track_info(MediaStreamId(ID), None),
        Err(TrackInfoError::NotFound(MediaStreamId(ID)))
    ));
    match media_track_info(MediaStreamId(ID), Some(&archived(None))) {
        Err(TrackInfoError::ParseMetadata(MetadataParseError { id, error })) => {
            assert_eq!(id, ArchiveRecordId(5));
            assert!(error.is_eof());
        }
        other => panic!("unexpected result: {:?}", other),
    }
}

#[test]
fn radio_is_shown_with_icon_and_name() {
    let radio = RadioItem { station: station(), title: Some("Song".to_string()) };
    assert_eq!(
        radio_track_info(&radio, "http://host/assets/2/abc/icon.png".to_string()),
        TrackInfo {
            image_url: Some("http://host/assets/2/abc/icon.png".to_string()),
            primary_label: "Radio One".to_string(),
            secondary_label: Some("Song".to_string()),
        }
    );
    let silent = RadioItem { station: station(), title: None };
    assert_eq!(radio_track_info(&silent, "i".to_string()).secondary_label, None);
}

#[test]
fn unknown_is_shown_under_the_first_label_there_is() {
    let label = |file: &str, title: Option<&str>, name: Option<&str>| {
        let info = fallback_item(&item(file, title, name));
        assert_eq!(info.image_url, None);
        assert_eq!(info.secondary_label, None);
        info.primary_label
    };
    assert_eq!(label("dir/file.mp3", Some("T"), Some("N")), "T");
    assert_eq!(label("dir/file.mp3", None, Some("N")), "N");
    assert_eq!(label("dir/sub/file.mp3", None, None), "file.mp3");
    assert_eq!(label("http://h/a/b", None, None), "b");
    assert_eq!(label("file.mp3", None, None), "file.mp3");
    assert_eq!(label("dir/", None, None), "");
    assert_eq!(label("", None, None), "");
    assert_eq!(label("/", Some(""), None), "");
}

#[test]
fn station_ids() {
    assert_eq!(StationId(3), StationId(3));
    assert_ne!(StationId(3), StationId(4));
}
