use hailsplay::archive::{ArchiveRecordId, MetadataParseError};
use hailsplay::asset::{Asset, AssetDigest, AssetId};
use hailsplay::http::{
    asset_cache_control, asset_path, asset_url, tune, AppError, MediaStreamError, PlayerAction,
    ASSET_MAX_AGE,
};
use hailsplay::mpd::{Command, Id};
use hailsplay::range::RangeNotSatisfiable;

fn config(external_url: &str) -> hailsplay::config::Config {
    hailsplay::config::Config {
        http: hailsplay::config::Http {
            listen: "0.0.0.0:3000".to_string(),
            internal_url: "http://127.0.0.1:3000/".to_string(),
            external_url: external_url.to_string(),
        },
        mpd: hailsplay::config::Mpd { socket: "/run/mpd/socket".to_string() },
        storage: hailsplay::config::Storage {
            archive: "/archive".to_string(),
            working: "/work".to_string(),
            database: "/db.sqlite".to_string(),
        },
    }
}

fn asset() -> Asset {
    Asset {
        filename: "icon.png".to_string(),
        content_type: "image/png".to_string(),
        digest: AssetDigest("2cf24dba".to_string()),
    }
}

#[test]
fn failures_are_answered_with_their_status() {
    assert_eq!(MediaStreamError::NotFound.status(), 404);
    assert_eq!(MediaStreamError::RangeNotSatisfiable(RangeNotSatisfiable { size: 1 }).status(), 416);
    assert_eq!(
        MediaStreamError::Io(std::io::Error::new(std::io::ErrorKind::Other, "x")).status(),
        500
    );
    assert_eq!(MediaStreamError::Database(rusqlite::Error::InvalidQuery).status(), 500);
    assert_eq!(
        MediaStreamError::ParseMetadata(MetadataParseError {
            id: ArchiveRecordId(1),
            error: std::sync::Arc::new(serde_json::from_str::<serde_json::Value>("").unwrap_err()),
        })
        .status(),
        500
    );
    assert_eq!(AppError { message: "boom".to_string() }.status(), 500);
}

#[test]
fn assets_are_cached_for_ten_years() {
    assert_eq!(asset_cache_control(), "public, max-age=315360000");
    assert_eq!(ASSET_MAX_AGE, 10 * 365 * 24 * 60 * 60);
}

#[test]
fn path_of_an_asset() {
    assert_eq!(asset_path(AssetId(7), &asset()), "assets/7/2cf24dba/icon.png");
    assert_eq!(asset_path(AssetId(0), &asset()), "assets/0/2cf24dba/icon.png");
    assert_eq!(asset_path(AssetId(-12), &asset()), "assets/-12/2cf24dba/icon.png");
    assert_eq!(
        asset_path(AssetId(i64::MAX), &asset()),
        "assets/9223372036854775807/2cf24dba/icon.png"
    );
    assert_eq!(
        asset_path(AssetId(i64::MIN), &asset()),
        "assets/-9223372036854775808/2cf24dba/icon.png"
    );
}

#[test]
fn url_of_an_asset() {
    assert_eq!(
        asset_url(&config("https://play.example/"), AssetId(7), &asset()).as_deref(),
        Some("https://play.example/assets/7/2cf24dba/icon.png")
    );
    assert_eq!(
        asset_url(&config("https://play.example/app/"), AssetId(7), &asset()).as_deref(),
        Some("https://play.example/app/assets/7/2cf24dba/icon.png")
    );
    assert_eq!(asset_url(&config("nonsense"), AssetId(7), &asset()), None);
}

#[test]
fn routes_of_the_player() {
    assert_eq!(PlayerAction::from_route("play"), Some(PlayerAction::Play));
    assert_eq!(PlayerAction::from_route("pause"), Some(PlayerAction::Pause));
    assert_eq!(PlayerAction::from_route("stop"), Some(PlayerAction::Stop));
    assert_eq!(PlayerAction::from_route("skip-next"), Some(PlayerAction::SkipNext));
    assert_eq!(PlayerAction::from_route("skip-back"), Some(PlayerAction::SkipBack));
    assert_eq!(PlayerAction::from_route("skip"), None);
    assert_eq!(PlayerAction::from_route("Play"), None);
    assert_eq!(PlayerAction::from_route(""), None);
}

#[test]
fn commands_of_the_player() {
    assert!(matches!(PlayerAction::Play.command(), Command::Play));
    assert!(matches!(PlayerAction::Pause.command(), Command::Pause));
    assert!(matches!(PlayerAction::Stop.command(), Command::Stop));
    assert!(matches!(PlayerAction::SkipNext.command(), Command::Next));
    assert!(matches!(PlayerAction::SkipBack.command(), Command::Previous));
}

#[test]
fn tune_stops_and_plays_the_new_entry() {
    let commands = tune(Id::from_text("12"));
    assert_eq!(commands.len(), 2);
    assert!(matches!(commands[0], Command::Stop));
    assert!(matches!(&commands[1], Command::PlayId(id) if *id == Id::from_text("12")));
    assert_eq!(commands[1].frame().unwrap(), "playid \"12\"\n");
}
