//! What a track of the queue is, and how it is shown.
//!
//! An entry of MPD's queue is a stream of the server's own, a radio station, or
//! something unknown. The caller looks the stream up in the archive registry and the
//! station in the database; what the lookups mean is decided here.

use crate::archive::{
    stream_id_text, stream_path_id, url_path, uuid_parsed, MediaStreamId, MetadataParseError,
    RecordKind,
};
use crate::asset::AssetId;
use crate::mime::file_name_of;
use crate::mpd::{PlaylistItem, PlaylistItemView};
use crate::protocol::{TrackInfo, TrackInfoView};
use crate::text::{chars_of, lemma_last_index_of, opt_text, rfind_char, string_between};
use vstd::prelude::*;

verus! {

/// The key of a radio station in the database.
#[derive(Clone, Copy, Debug, PartialEq, Eq, Structural)]
pub struct StationId(pub i64);

/// A radio station.
#[derive(Debug, Clone, PartialEq, Eq)]
pub struct Station {
    pub name: String,
    /// The asset that holds the icon.
    pub icon: AssetId,
    pub stream_url: String,
}

/// An entry of the queue that plays a radio station.
#[derive(Debug)]
pub struct RadioItem {
    pub station: Station,
    /// The title that the stream gives of what it plays now, if it gives one.
    pub title: Option<String>,
}

/// What an entry of the queue is.
#[derive(Debug)]
pub enum TrackKind {
    Radio(RadioItem),
    Media(MediaStreamId),
    Unknown(PlaylistItem),
}

/// The stream that the file of an entry may stand for: the file is a URL whose path is
/// `/media/<id>/stream`, with `<id>` the text of an identifier.
pub open spec fn media_candidate(file: Seq<char>) -> Option<MediaStreamId> {
    match url_path(file) {
        Some(path) => match stream_path_id(path) {
            Some(text) => match uuid_parsed(text) {
                Some(v) => Some(MediaStreamId(v)),
                None => None,
            },
            None => None,
        },
        None => None,
    }
}

/// The stream that `item` may stand for. Whether there is such a stream is for the
/// archive registry to say.
pub fn media_stream_item(item: &PlaylistItem) -> (id: Option<MediaStreamId>)
    ensures
        id == media_candidate(item.file@),
{
    match crate::archive::path_of_url(item.file.as_str()) {
        Some(path) => match stream_id_text(path.as_str()) {
            Some(text) => MediaStreamId::from_text(text.as_str()),
            None => None,
        },
        None => None,
    }
}

/// Says what `item` is. `media` is the stream that it stands for, where the archive
/// registry knows that stream, and `station` the radio station whose stream URL is the
/// file of the entry, where there is one. A stream comes before a station.
pub fn identify(item: &PlaylistItem, media: Option<MediaStreamId>, station: Option<Station>) -> (kind:
    TrackKind)
    ensures
        match (media, station) {
            (Some(id), _) => kind == TrackKind::Media(id),
            (None, Some(s)) => kind is Radio && kind->Radio_0.station == s && opt_text(
                kind->Radio_0.title,
            ) == item@.title,
            (None, None) => kind is Unknown && kind->Unknown_0@ == item@,
        },
{
    if let Some(id) = media {
        return TrackKind::Media(id);
    }
    if let Some(station) = station {
        return TrackKind::Radio(RadioItem { station, title: item.title.clone() });
    }
    TrackKind::Unknown(item.clone())
}

/// Why a stream cannot be shown.
#[derive(Debug)]
pub enum TrackInfoError {
    /// The archive registry does not know the stream.
    NotFound(MediaStreamId),
    /// What the extractor said of it cannot be read.
    ParseMetadata(MetadataParseError),
}

/// How the stream `id` is shown: with its thumbnail, under its title, or under the name
/// of its file where it has no title, and with its uploader below. `record` is what the
/// archive registry holds for the stream.
pub fn media_track_info(id: MediaStreamId, record: Option<&RecordKind>) -> (r: Result<
    TrackInfo,
    TrackInfoError,
>)
    ensures
        record is None ==> r == Err::<TrackInfo, TrackInfoError>(TrackInfoError::NotFound(id)),
        record is Some ==> match record->0 {
            RecordKind::Archive(row_id, row) => match row.metadata {
                Ok(m) => r is Ok && r->Ok_0@ == (TrackInfoView {
                    image_url: m@.thumbnail,
                    primary_label: match m@.title {
                        Some(t) => t,
                        None => row.filename@,
                    },
                    secondary_label: m@.uploader,
                }),
                Err(error) => r == Err::<TrackInfo, TrackInfoError>(
                    TrackInfoError::ParseMetadata(MetadataParseError { id: *row_id, error }),
                ),
            },
            RecordKind::Memory(rec) => r is Ok && r->Ok_0@ == (TrackInfoView {
                image_url: rec.download.metadata@.thumbnail,
                primary_label: match rec.download.metadata@.title {
                    Some(t) => t,
                    None => rec.download.filename@,
                },
                secondary_label: rec.download.metadata@.uploader,
            }),
        },
{
    let Some(record) = record else {
        return Err(TrackInfoError::NotFound(id));
    };
    let metadata = match record.parse_metadata() {
        Ok(m) => m,
        Err(e) => {
            return Err(TrackInfoError::ParseMetadata(e));
        },
    };
    let primary_label = match metadata.title {
        Some(t) => t,
        None => record.filename(),
    };
    Ok(
        TrackInfo {
            image_url: metadata.thumbnail,
            primary_label,
            secondary_label: metadata.uploader,
        },
    )
}

/// How a radio station is shown: with its icon, under its name, and with what the
/// stream plays now below. `image_url` is the URL of the icon.
pub fn radio_track_info(item: &RadioItem, image_url: String) -> (info: TrackInfo)
    ensures
        info@ == (TrackInfoView {
            image_url: Some(image_url@),
            primary_label: item.station.name@,
            secondary_label: opt_text(item.title),
        }),
{
    TrackInfo {
        image_url: Some(image_url),
        primary_label: item.station.name.clone(),
        secondary_label: item.title.clone(),
    }
}

/// The label of an entry of unknown kind: its title, else its name, else what follows
/// the last `/` of its file, else its file.
pub open spec fn fallback_label(item: PlaylistItemView) -> Seq<char> {
    match item.title {
        Some(t) => t,
        None => match item.name {
            Some(n) => n,
            None => file_name_of(item.file),
        },
    }
}

/// How an entry of unknown kind is shown: under its label, without image.
pub fn fallback_item(item: &PlaylistItem) -> (info: TrackInfo)
    ensures
        info@ == (TrackInfoView {
            image_url: None,
            primary_label: fallback_label(item@),
            secondary_label: None,
        }),
{
    let primary_label = match &item.title {
        Some(t) => t.clone(),
        None => match &item.name {
            Some(n) => n.clone(),
            None => {
                let f = chars_of(item.file.as_str());
                proof {
                    lemma_last_index_of(f@, '/');
                }
                match rfind_char(&f, '/') {
                    Some(i) => {
                        let s = string_between(&f, i + 1, f.len());
                        assert(f@.subrange(i + 1, f@.len() as int) == f@.skip(i + 1));
                        s
                    },
                    None => item.file.clone(),
                }
            },
        },
    };
    TrackInfo { image_url: None, primary_label, secondary_label: None }
}

} // verus!
