//! The archive registry: one lookup over the downloads that are going on, which are held
//! in memory, and the finished ones, which are rows of the database.
//!
//! The database belongs to the caller. It hands the row it found, if any, to
//! [`Registry::load`], which gives the row precedence over the record in memory; and it
//! stores the row that [`archive_row`] builds when a download has finished.

use crate::asset::{AssetId, DownloadError as AssetDownloadError, UploadableAsset};
use crate::config::Config;
use crate::fs::{joined, share};
use crate::mime::type_of_path;
use crate::text::{chars_of, matches_at, opt_text, push_str, string_between, string_of};
use crate::ytdlp::{DownloadError, DownloadHandle, Metadata};
use std::collections::HashMap;
use std::sync::Arc;
use vstd::prelude::*;

verus! {

broadcast use vstd::std_specs::hash::group_hash_axioms;

/// The error type of `rusqlite`, carried through unread.
#[verifier::external_type_specification]
#[verifier::external_body]
pub struct ExDatabaseError(rusqlite::Error);

/// The identifier of a stream: a UUID, as its 128 bits.
#[derive(Clone, Copy, Debug, PartialEq, Eq, Hash, Structural)]
pub struct MediaStreamId(pub u128);

/// The UUID that `uuid::Uuid::parse_str` reads from a text, as its 128 bits.
pub uninterp spec fn uuid_parsed(text: Seq<char>) -> Option<u128>;

/// 16 to the power `n`.
pub open spec fn pow16(n: int) -> int
    decreases n,
{
    if n <= 0 {
        1
    } else {
        16 * pow16(n - 1)
    }
}

/// The hexadecimal digit for `n`, in lower case.
pub open spec fn hex_digit(n: int) -> char {
    if n == 0 {
        '0'
    } else if n == 1 {
        '1'
    } else if n == 2 {
        '2'
    } else if n == 3 {
        '3'
    } else if n == 4 {
        '4'
    } else if n == 5 {
        '5'
    } else if n == 6 {
        '6'
    } else if n == 7 {
        '7'
    } else if n == 8 {
        '8'
    } else if n == 9 {
        '9'
    } else if n == 10 {
        'a'
    } else if n == 11 {
        'b'
    } else if n == 12 {
        'c'
    } else if n == 13 {
        'd'
    } else if n == 14 {
        'e'
    } else {
        'f'
    }
}

/// Whether a hyphen stands at place `i` of the canonical text of a UUID.
pub open spec fn hyphen_at(i: int) -> bool {
    i == 8 || i == 13 || i == 18 || i == 23
}

/// The number of hyphens before place `i` of the canonical text of a UUID.
pub open spec fn hyphens_before(i: int) -> int {
    if i > 23 {
        4
    } else if i > 18 {
        3
    } else if i > 13 {
        2
    } else if i > 8 {
        1
    } else {
        0
    }
}

/// The canonical text of the UUID `v`: its 32 hexadecimal digits in lower case, the
/// most significant first, in groups of 8, 4, 4, 4 and 12 with a hyphen between them.
pub open spec fn hyphenated(v: u128) -> Seq<char> {
    Seq::new(
        36,
        |i: int|
            if hyphen_at(i) {
                '-'
            } else {
                hex_digit((v as int / pow16(31 - (i - hyphens_before(i)))) % 16)
            },
    )
}

/// `uuid::Uuid::parse_str` reads a UUID from any of the forms that the crate writes.
/// What it reads is a function of the text alone.
#[verifier::external_body]
fn uuid_parse(text: &str) -> (r: Option<u128>)
    ensures
        r == uuid_parsed(text@),
{
    uuid::Uuid::parse_str(text).ok().map(|u| u.as_u128())
}

/// `uuid::Uuid` displays as its hyphenated form in lower case, which `parse_str` reads
/// back as the same UUID.
#[verifier::external_body]
fn uuid_format(v: u128) -> (s: String)
    ensures
        s@ == hyphenated(v),
        uuid_parsed(s@) == Some(v),
{
    uuid::Uuid::from_u128(v).to_string()
}

/// Whether `v` is a random UUID as RFC 9562 lays it out (version 4): of its 32
/// hexadecimal digits, counted from the left and from 0, the digit at place 12 is 4 and
/// the digit at place 16 is one of 8, 9, a and b. The other 122 bits are the random ones.
pub open spec fn is_random_uuid(v: u128) -> bool {
    &&& (v as int / pow16(19)) % 16 == 4
    &&& 8 <= (v as int / pow16(15)) % 16 < 12
}

/// `uuid::Uuid::new_v4` makes a random UUID: it takes 128 random bits and sets the
/// version to 4 and the variant to that of RFC 9562. Which UUID comes out is left open.
#[verifier::external_body]
fn uuid_random() -> (v: u128)
    ensures
        is_random_uuid(v),
{
    uuid::Uuid::new_v4().as_u128()
}

impl MediaStreamId {
    /// A fresh identifier: a random UUID. Its canonical text has a `4` at place 14 and
    /// one of `8`, `9`, `a` and `b` at place 19.
    pub fn generate() -> (id: Self)
        ensures
            is_random_uuid(id.0),
            hyphenated(id.0)[14] == '4',
            hyphenated(id.0)[19] == '8' || hyphenated(id.0)[19] == '9' || hyphenated(id.0)[19]
                == 'a' || hyphenated(id.0)[19] == 'b',
    {
        MediaStreamId(uuid_random())
    }

    /// The identifier that `text` writes, if it writes one.
    pub fn from_text(text: &str) -> (id: Option<Self>)
        ensures
            match id {
                Some(i) => uuid_parsed(text@) == Some(i.0),
                None => uuid_parsed(text@) is None,
            },
    {
        match uuid_parse(text) {
            Some(v) => Some(MediaStreamId(v)),
            None => None,
        }
    }

    /// The canonical text of this identifier, 36 characters long.
    pub fn to_text(&self) -> (s: String)
        ensures
            s@ == hyphenated(self.0),
            s@.len() == 36,
            uuid_parsed(s@) == Some(self.0),
    {
        uuid_format(self.0)
    }
}

/// What the path of a stream begins with.
pub open spec fn stream_path_head() -> Seq<char> {
    "/media/"@
}

/// What the path of a stream ends with.
pub open spec fn stream_path_tail() -> Seq<char> {
    "/stream"@
}

/// The path under which the stream `id` is served, relative to the root of the server.
pub open spec fn stream_path(id: MediaStreamId) -> Seq<char> {
    "media/"@ + hyphenated(id.0) + stream_path_tail()
}

/// The text that stands for the identifier in the path of a stream:
/// `/media/<id>/stream`, where `<id>` is not empty and holds no `/`.
pub open spec fn stream_path_id(path: Seq<char>) -> Option<Seq<char>> {
    let head = stream_path_head();
    let tail = stream_path_tail();
    let end = path.len() - tail.len();
    if head.is_prefix_of(path) && head.len() < end && path.subrange(end, path.len() as int)
        == tail && !path.subrange(head.len() as int, end).contains('/') {
        Some(path.subrange(head.len() as int, end))
    } else {
        None
    }
}

/// The path under which the stream `id` is served, relative to the root of the server.
pub fn relative_stream_path(id: MediaStreamId) -> (path: String)
    ensures
        path@ == stream_path(id),
{
    let mut out: Vec<char> = Vec::new();
    let text = id.to_text();
    push_str(&mut out, "media/");
    push_str(&mut out, text.as_str());
    push_str(&mut out, "/stream");
    assert(out@ =~= stream_path(id));
    string_of(&out)
}

/// Reads the identifier out of the path of a stream, as text.
pub fn stream_id_text(path: &str) -> (r: Option<String>)
    ensures
        opt_text(r) == stream_path_id(path@),
{
    let p = chars_of(path);
    let head = chars_of("/media/");
    let tail = chars_of("/stream");
    if !matches_at(&p, 0, &head) {
        return None;
    }
    if p.len() < tail.len() || p.len() - tail.len() <= head.len() {
        return None;
    }
    let end: usize = p.len() - tail.len();
    if !matches_at(&p, end, &tail) {
        return None;
    }
    let mut i: usize = head.len();
    while i < end
        invariant
            p@ == path@,
            head@ == stream_path_head(),
            tail@ == stream_path_tail(),
            end == p.len() - tail.len(),
            head.len() <= i <= end <= p.len(),
            forall|k: int| head.len() <= k < i ==> p@[k] != '/',
        decreases end - i,
    {
        if p[i] == '/' {
            assert(p@.subrange(head.len() as int, end as int)[i - head.len()] == '/');
            return None;
        }
        i += 1;
    }
    assert(!p@.subrange(head.len() as int, end as int).contains('/')) by {
        let mid = p@.subrange(head.len() as int, end as int);
        if mid.contains('/') {
            let k = choose|k: int| 0 <= k < mid.len() && mid[k] == '/';
            assert(p@[head.len() + k] == '/');
        }
    }
    Some(string_between(&p, head.len(), end))
}

/// The path of a stream reads back: the path under which a stream is served, taken
/// from the root of the server, is the path of a stream, and the identifier in it is
/// the canonical text of the identifier of that stream.
pub proof fn law_stream_path_reads_back(id: MediaStreamId)
    ensures
        stream_path_id(seq!['/'] + stream_path(id)) == Some(hyphenated(id.0)),
{
    reveal_strlit("media/");
    reveal_strlit("/media/");
    reveal_strlit("/stream");
    let text = hyphenated(id.0);
    let path = seq!['/'] + stream_path(id);
    let head = stream_path_head();
    let tail = stream_path_tail();
    let end = path.len() - tail.len();
    assert(path.len() == 50);
    assert(path.subrange(0, head.len() as int) =~= head);
    assert(path.subrange(end, path.len() as int) =~= tail);
    assert(path.subrange(head.len() as int, end) =~= text);
    assert(!text.contains('/')) by {
        if text.contains('/') {
            let k = choose|k: int| 0 <= k < text.len() && text[k] == '/';
            assert(text[k] == '-' || text[k] == hex_digit(
                (id.0 as int / pow16(31 - (k - hyphens_before(k)))) % 16,
            ));
        }
    }
}

/// The text of the URL that `url::Url::join` makes of a base and a reference, if both
/// can be read.
pub uninterp spec fn url_joined(base: Seq<char>, reference: Seq<char>) -> Option<Seq<char>>;

/// `url::Url::parse` reads the base and `url::Url::join` resolves the reference against
/// it. The result is a function of the two texts alone.
#[verifier::external_body]
pub(crate) fn url_join(base: &str, reference: &str) -> (r: Option<String>)
    ensures
        opt_text(r) == url_joined(base@, reference@),
{
    url::Url::parse(base).ok().and_then(|b| b.join(reference).ok()).map(|u| u.to_string())
}

/// The path of the URL that `url::Url::parse` reads from a text, if it reads one.
pub uninterp spec fn url_path(text: Seq<char>) -> Option<Seq<char>>;

/// `url::Url::parse` reads a URL and `url::Url::path` gives its path. The result is a
/// function of the text alone.
#[verifier::external_body]
pub(crate) fn path_of_url(text: &str) -> (r: Option<String>)
    ensures
        opt_text(r) == url_path(text@),
{
    url::Url::parse(text).ok().map(|u| u.path().to_owned())
}

/// The key of an archived download in the database.
#[derive(Clone, Copy, Debug, PartialEq, Eq, Structural)]
pub struct ArchiveRecordId(pub i32);

/// A finished download, as the database holds it.
#[derive(Debug)]
pub struct ArchiveRecord {
    /// The name of the audio file under the archive root.
    pub filename: String,
    pub canonical_url: String,
    /// The time of archiving in UTC, as RFC 3339 text.
    pub archived_at: String,
    pub stream_uuid: MediaStreamId,
    pub thumbnail_id: Option<AssetId>,
    /// What the extractor said of the media, or why the stored JSON cannot be read.
    pub metadata: Result<Metadata, Arc<serde_json::Error>>,
}

/// A stored info JSON that cannot be read.
#[derive(Debug)]
pub struct MetadataParseError {
    /// The row that holds it.
    pub id: ArchiveRecordId,
    /// Why it cannot be read.
    pub error: Arc<serde_json::Error>,
}

/// A download that is going on.
#[derive(Debug)]
pub struct MemoryRecord {
    pub id: MediaStreamId,
    /// The URL as it was submitted.
    pub url: String,
    pub download: Arc<DownloadHandle>,
}

impl MemoryRecord {
    /// What the extractor said of the media.
    pub fn metadata(&self) -> (m: &Metadata)
        ensures
            *m == self.download.metadata,
    {
        &self.download.metadata
    }
}

/// A stream, going on or finished.
#[derive(Debug)]
pub enum RecordKind {
    Memory(Arc<MemoryRecord>),
    Archive(ArchiveRecordId, ArchiveRecord),
}

impl RecordKind {
    /// The path of the audio file as far as the record itself knows it: its name for a
    /// finished download, its place in the scratch directory for one that is going on.
    pub open spec fn file(&self) -> Seq<char> {
        match self {
            RecordKind::Archive(_, record) => record.filename@,
            RecordKind::Memory(record) => record.download.file.spec_path(),
        }
    }

    /// The media type of the audio, by the extension of its file.
    pub fn content_type(&self) -> (mime: &'static str)
        ensures
            mime@ == type_of_path(self.file()),
    {
        match self {
            RecordKind::Archive(_, record) => crate::mime::from_path(record.filename.as_str()),
            RecordKind::Memory(record) => crate::mime::from_path(record.download.file.path()),
        }
    }

    /// Where the audio file is on disk: under the root of the archive for a finished
    /// download, in its scratch directory for one that is going on.
    pub fn disk_path(&self, config: &Config) -> (path: String)
        ensures
            path@ == match self {
                RecordKind::Archive(_, record) => joined(
                    config.storage.archive@,
                    record.filename@,
                ),
                RecordKind::Memory(record) => record.download.file.spec_path(),
            },
    {
        match self {
            RecordKind::Archive(_, record) => crate::fs::join(
                config.storage.archive.as_str(),
                record.filename.as_str(),
            ),
            RecordKind::Memory(record) => record.download.file.path().to_owned(),
        }
    }

    /// The name of the audio file.
    pub fn filename(&self) -> (name: String)
        ensures
            name@ == match self {
                RecordKind::Archive(_, record) => record.filename@,
                RecordKind::Memory(record) => record.download.filename@,
            },
    {
        match self {
            RecordKind::Archive(_, record) => record.filename.clone(),
            RecordKind::Memory(record) => record.download.filename(),
        }
    }

    /// The identifier of the stream.
    pub fn stream_id(&self) -> (id: MediaStreamId)
        ensures
            id == match self {
                RecordKind::Archive(_, record) => record.stream_uuid,
                RecordKind::Memory(record) => record.id,
            },
    {
        match self {
            RecordKind::Archive(_, record) => record.stream_uuid,
            RecordKind::Memory(record) => record.id,
        }
    }

    /// The URL under which the server itself serves the stream: its path, resolved
    /// against the internal URL of the server. `None` where that cannot be done.
    pub fn internal_stream_url(&self, config: &Config) -> (url: Option<String>)
        ensures
            opt_text(url) == url_joined(
                config.http.internal_url@,
                stream_path(
                    match self {
                        RecordKind::Archive(_, record) => record.stream_uuid,
                        RecordKind::Memory(record) => record.id,
                    },
                ),
            ),
    {
        let path = relative_stream_path(self.stream_id());
        url_join(config.http.internal_url.as_str(), path.as_str())
    }

    /// What the extractor said of the media. For a finished download this fails where
    /// the stored JSON cannot be read.
    pub fn parse_metadata(&self) -> (r: Result<Metadata, MetadataParseError>)
        ensures
            match self {
                RecordKind::Archive(id, record) => match record.metadata {
                    Ok(m) => r is Ok && r->Ok_0@ == m@,
                    Err(error) => r == Err::<Metadata, MetadataParseError>(
                        MetadataParseError { id: *id, error },
                    ),
                },
                RecordKind::Memory(record) => r is Ok && r->Ok_0@ == record.download.metadata@,
            },
    {
        match self {
            RecordKind::Archive(id, record) => match &record.metadata {
                Ok(m) => Ok(m.clone()),
                Err(error) => Err(MetadataParseError { id: *id, error: share(error) }),
            },
            RecordKind::Memory(record) => Ok(record.metadata().clone()),
        }
    }
}

/// Why a URL could not be added.
#[derive(Debug)]
pub enum AddUrlError {
    Io(std::io::Error),
    YtDlp(DownloadError),
}

/// Why a finished download could not be archived.
#[derive(Debug)]
pub enum ArchiveError {
    /// The download failed.
    DownloadFailed(DownloadError),
    /// The task that ran the download ended without a result.
    DownloadTaskFailed,
    /// The metadata could not be written as JSON.
    SerializeMetadata(serde_json::Error),
    /// The thumbnail could not be stored.
    InsertThumbnail(rusqlite::Error),
    /// The row could not be stored.
    InsertArchiveRecord(rusqlite::Error),
}

impl ArchiveError {
    /// Whether this failure leaves the record in memory: a failure of the database
    /// does, so that the stream stays playable; a failed download does not.
    pub open spec fn keeps_record(&self) -> bool {
        self is InsertThumbnail || self is InsertArchiveRecord
    }
}

/// What the end of the download means for archiving: `complete` is what the download
/// task reported, `None` where it ended without reporting.
pub fn download_outcome(complete: Option<Result<(), DownloadError>>) -> (r: Result<
    (),
    ArchiveError,
>)
    ensures
        match complete {
            None => r is Err && r->Err_0 is DownloadTaskFailed,
            Some(Err(e)) => r is Err && r->Err_0 is DownloadFailed && r->Err_0->DownloadFailed_0
                == e,
            Some(Ok(())) => r is Ok,
        },
{
    match complete {
        None => Err(ArchiveError::DownloadTaskFailed),
        Some(Err(e)) => Err(ArchiveError::DownloadFailed(e)),
        Some(Ok(())) => Ok(()),
    }
}

/// The URL under which a download is archived: the page that the extractor names, or
/// the URL as it was submitted where it names none.
pub fn canonical_url(record: &MemoryRecord) -> (url: String)
    ensures
        url@ == match record.download.metadata.webpage_url {
            Some(page) => page@,
            None => record.url@,
        },
{
    match &record.metadata().webpage_url {
        Some(page) => page.clone(),
        None => record.url.clone(),
    }
}

/// The thumbnail to fetch before a download is archived, if the extractor names one.
pub fn thumbnail_url(record: &MemoryRecord) -> (url: Option<String>)
    ensures
        opt_text(url) == opt_text(record.download.metadata.thumbnail),
{
    match &record.metadata().thumbnail {
        Some(t) => Some(t.clone()),
        None => None,
    }
}

/// What a fetch of the thumbnail yields for archiving: the asset, or nothing where the
/// fetch failed. A thumbnail that cannot be had does not stop the archiving.
pub fn thumbnail_fetched(fetched: Result<UploadableAsset, AssetDownloadError>) -> (asset: Option<
    UploadableAsset,
>)
    ensures
        asset == match fetched {
            Ok(a) => Some(a),
            Err(_) => None,
        },
{
    match fetched {
        Ok(a) => Some(a),
        Err(_) => None,
    }
}

/// The row under which a finished download is archived. `archived_at` is the time now
/// and `thumbnail_id` the key of the stored thumbnail, if there is one.
pub fn archive_row(
    record: &MemoryRecord,
    archived_at: String,
    thumbnail_id: Option<AssetId>,
) -> (row: ArchiveRecord)
    ensures
        row.filename@ == record.download.filename@,
        row.canonical_url@ == match record.download.metadata.webpage_url {
            Some(page) => page@,
            None => record.url@,
        },
        row.archived_at@ == archived_at@,
        row.stream_uuid == record.id,
        row.thumbnail_id == thumbnail_id,
        row.metadata is Ok && row.metadata->Ok_0@ == record.download.metadata@,
{
    ArchiveRecord {
        filename: record.download.filename(),
        canonical_url: canonical_url(record),
        archived_at,
        stream_uuid: record.id,
        thumbnail_id,
        metadata: Ok(record.metadata().clone()),
    }
}

/// The URLs of `pairs` with the stream that each stands for; a later pair replaces an
/// earlier one of the same URL.
pub open spec fn url_map(pairs: Seq<(Seq<char>, MediaStreamId)>) -> Map<Seq<char>, MediaStreamId>
    decreases pairs.len(),
{
    if pairs.len() == 0 {
        Map::empty()
    } else {
        url_map(pairs.drop_last()).insert(pairs.last().0, pairs.last().1)
    }
}

/// The contents of a list of URLs and streams.
pub open spec fn url_pairs(pairs: Seq<(String, MediaStreamId)>) -> Seq<(Seq<char>, MediaStreamId)> {
    pairs.map_values(|p: (String, MediaStreamId)| (p.0@, p.1))
}

/// Whether no two of `pairs` have the same URL.
pub open spec fn distinct_urls(pairs: Seq<(Seq<char>, MediaStreamId)>) -> bool {
    forall|i: int, j: int|
        0 <= i < j < pairs.len() ==> (#[trigger] pairs[i]).0 != (#[trigger] pairs[j]).0
}

/// Whether one of the first `n` of `pairs` has the URL `url`.
pub open spec fn has_url(pairs: Seq<(Seq<char>, MediaStreamId)>, n: int, url: Seq<char>) -> bool {
    exists|j: int| 0 <= j < n && j < pairs.len() && (#[trigger] pairs[j]).0 == url
}

/// The map `m` without the URL `url` and, where `id` names a stream, without the URLs
/// that stand for that stream.
pub open spec fn pruned(
    m: Map<Seq<char>, MediaStreamId>,
    url: Seq<char>,
    id: Option<MediaStreamId>,
) -> Map<Seq<char>, MediaStreamId> {
    Map::new(
        |u: Seq<char>| m.contains_key(u) && u != url && (id is Some ==> m[u] != id->0),
        |u: Seq<char>| m[u],
    )
}

/// The URLs of the map are the URLs of the pairs.
proof fn lemma_url_map_keys(pairs: Seq<(Seq<char>, MediaStreamId)>)
    ensures
        forall|u: Seq<char>|
            #[trigger] url_map(pairs).contains_key(u) <==> has_url(pairs, pairs.len() as int, u),
    decreases pairs.len(),
{
    if pairs.len() == 0 {
        assert forall|u: Seq<char>| #[trigger]
            url_map(pairs).contains_key(u) <==> has_url(pairs, pairs.len() as int, u) by {}
    } else {
        let init = pairs.drop_last();
        lemma_url_map_keys(init);
        assert forall|u: Seq<char>| #[trigger]
            url_map(pairs).contains_key(u) <==> has_url(pairs, pairs.len() as int, u) by {
            let inside = url_map(init).contains_key(u);
            assert(inside <==> has_url(init, init.len() as int, u));
            if has_url(pairs, pairs.len() as int, u) {
                let j = choose|j: int|
                    0 <= j < pairs.len() && j < pairs.len() && (#[trigger] pairs[j]).0 == u;
                if j < init.len() {
                    assert(init[j] == pairs[j]);
                    assert(has_url(init, init.len() as int, u));
                } else {
                    assert(pairs.last() == pairs[j]);
                }
            }
            if url_map(pairs).contains_key(u) {
                if u == pairs.last().0 {
                    assert(pairs[pairs.len() - 1].0 == u);
                } else {
                    assert(inside);
                    let j = choose|j: int|
                        0 <= j < init.len() && j < init.len() && (#[trigger] init[j]).0 == u;
                    assert(pairs[j] == init[j]);
                }
            }
        }
    }
}

/// Where no two pairs have the same URL, each pair's URL stands for its stream.
proof fn lemma_url_map_values(pairs: Seq<(Seq<char>, MediaStreamId)>)
    requires
        distinct_urls(pairs),
    ensures
        forall|i: int|
            0 <= i < pairs.len() ==> url_map(pairs).contains_key((#[trigger] pairs[i]).0)
                && url_map(pairs)[pairs[i].0] == pairs[i].1,
    decreases pairs.len(),
{
    if pairs.len() > 0 {
        let init = pairs.drop_last();
        assert forall|i: int, j: int| 0 <= i < j < init.len() implies (#[trigger] init[i]).0 != (
        #[trigger] init[j]).0 by {
            assert(init[i] == pairs[i]);
            assert(init[j] == pairs[j]);
        }
        lemma_url_map_values(init);
        assert forall|i: int| 0 <= i < pairs.len() implies url_map(pairs).contains_key(
            (#[trigger] pairs[i]).0,
        ) && url_map(pairs)[pairs[i].0] == pairs[i].1 by {
            if i < init.len() {
                assert(init[i] == pairs[i]);
                assert(pairs[i].0 != pairs[pairs.len() - 1].0);
            }
        }
    }
}

/// The pairs without those of the URL `url` and, where `id` names a stream, without
/// those of that stream.
fn without(pairs: &Vec<(String, MediaStreamId)>, url: &str, id: Option<MediaStreamId>) -> (kept:
    Vec<(String, MediaStreamId)>)
    requires
        distinct_urls(url_pairs(pairs@)),
    ensures
        distinct_urls(url_pairs(kept@)),
        url_map(url_pairs(kept@)) == pruned(url_map(url_pairs(pairs@)), url@, id),
{
    let mut kept: Vec<(String, MediaStreamId)> = Vec::new();
    let ghost all = url_pairs(pairs@);
    let mut i: usize = 0;
    proof {
        assert(all.take(0).len() == 0);
        assert(url_pairs(kept@).len() == 0);
        assert(pruned(url_map(all.take(0)), url@, id) =~= Map::<
            Seq<char>,
            MediaStreamId,
        >::empty());
    }
    while i < pairs.len()
        invariant
            i <= pairs.len(),
            all == url_pairs(pairs@),
            distinct_urls(all),
            distinct_urls(url_pairs(kept@)),
            forall|k: int|
                0 <= k < kept@.len() ==> has_url(all, i as int, (#[trigger] url_pairs(kept@)[k]).0),
            url_map(url_pairs(kept@)) == pruned(url_map(all.take(i as int)), url@, id),
        decreases pairs.len() - i,
    {
        let ghost before = url_pairs(kept@);
        let ghost x = all[i as int];
        let ghost m = url_map(all.take(i as int));
        proof {
            assert(all.take(i + 1).drop_last() == all.take(i as int));
            assert(all.take(i + 1).last() == x);
            lemma_url_map_keys(all.take(i as int));
            if m.contains_key(x.0) {
                let j = choose|j: int|
                    0 <= j < i && (#[trigger] all.take(i as int)[j]).0 == x.0;
                assert(all[j] == all.take(i as int)[j]);
                assert(false);
            }
        }
        let drop = crate::text::same_text(pairs[i].0.as_str(), url) || match id {
            Some(id) => pairs[i].1 == id,
            None => false,
        };
        if !drop {
            kept.push((pairs[i].0.clone(), pairs[i].1));
            proof {
                let now = url_pairs(kept@);
                assert(now.drop_last() == before);
                assert(now.last() == x);
                assert(m.insert(x.0, x.1).contains_key(x.0));
                assert(pruned(m, url@, id).insert(x.0, x.1) =~= pruned(
                    m.insert(x.0, x.1),
                    url@,
                    id,
                ));
                assert forall|a: int, b: int| 0 <= a < b < now.len() implies (#[trigger] now[a]).0
                    != (#[trigger] now[b]).0 by {
                    if b < before.len() {
                        assert(now[a] == before[a]);
                        assert(now[b] == before[b]);
                    } else {
                        assert(now[a] == before[a]);
                        assert(has_url(all, i as int, before[a].0));
                        let j = choose|j: int|
                            0 <= j < i && j < all.len() && (#[trigger] all[j]).0 == before[a].0;
                        assert(all[j].0 != all[i as int].0);
                    }
                }
                assert forall|k: int| 0 <= k < kept@.len() implies has_url(
                    all,
                    i + 1,
                    (#[trigger] url_pairs(kept@)[k]).0,
                ) by {
                    if k < before.len() {
                        assert(now[k] == before[k]);
                        assert(has_url(all, i as int, before[k].0));
                        let j = choose|j: int|
                            0 <= j < i && j < all.len() && (#[trigger] all[j]).0 == before[k].0;
                        assert(all[j].0 == now[k].0);
                    } else {
                        assert(all[i as int].0 == now[k].0);
                    }
                }
            }
        } else {
            proof {
                assert(pruned(m, url@, id) =~= pruned(m.insert(x.0, x.1), url@, id));
                assert forall|k: int| 0 <= k < kept@.len() implies has_url(
                    all,
                    i + 1,
                    (#[trigger] url_pairs(kept@)[k]).0,
                ) by {
                    assert(has_url(all, i as int, before[k].0));
                    let j = choose|j: int|
                        0 <= j < i && j < all.len() && (#[trigger] all[j]).0 == before[k].0;
                    assert(all[j].0 == before[k].0);
                }
            }
        }
        i += 1;
    }
    assert(all.take(all.len() as int) == all);
    kept
}

/// The downloads that are going on, by stream and by URL.
pub struct Registry {
    media_by_url: Vec<(String, MediaStreamId)>,
    media: HashMap<u128, Arc<MemoryRecord>>,
}

impl Registry {
    /// The stream that each submitted URL stands for.
    pub closed spec fn by_url(&self) -> Map<Seq<char>, MediaStreamId> {
        url_map(url_pairs(self.media_by_url@))
    }

    /// The record of each stream.
    pub closed spec fn records(&self) -> Map<u128, Arc<MemoryRecord>> {
        self.media@
    }

    /// Whether every URL is held once.
    pub closed spec fn tidy(&self) -> bool {
        distinct_urls(url_pairs(self.media_by_url@))
    }

    /// Whether the registry is well formed: every record is held under its own
    /// stream, and every URL stands for a stream that has a record.
    pub open spec fn wf(&self) -> bool {
        &&& self.tidy()
        &&& forall|k: u128| #[trigger]
            self.records().contains_key(k) ==> self.records()[k].id.0 == k
        &&& forall|u: Seq<char>| #[trigger]
            self.by_url().contains_key(u) ==> self.records().contains_key(self.by_url()[u].0)
    }

    /// A registry without downloads.
    pub fn new() -> (r: Self)
        ensures
            r.wf(),
            r.records() == Map::<u128, Arc<MemoryRecord>>::empty(),
            r.by_url() == Map::<Seq<char>, MediaStreamId>::empty(),
    {
        let r = Registry { media_by_url: Vec::new(), media: HashMap::new() };
        assert(url_pairs(r.media_by_url@).len() == 0);
        r
    }

    /// Registers a download under its stream and under its URL, in place of what stood
    /// there.
    pub fn insert(&mut self, record: Arc<MemoryRecord>)
        requires
            old(self).wf(),
        ensures
            final(self).wf(),
            final(self).records() == old(self).records().insert(record.id.0, record),
            final(self).by_url() == old(self).by_url().insert(record.url@, record.id),
    {
        let mut pairs = without(&self.media_by_url, record.url.as_str(), None);
        let ghost rest = url_pairs(pairs@);
        pairs.push((record.url.clone(), record.id));
        proof {
            let now = url_pairs(pairs@);
            assert(now.drop_last() == rest);
            assert(now.last() == (record.url@, record.id));
            assert(pruned(old(self).by_url(), record.url@, None).insert(record.url@, record.id)
                =~= old(self).by_url().insert(record.url@, record.id));
            lemma_url_map_keys(rest);
            assert forall|a: int, b: int| 0 <= a < b < now.len() implies (#[trigger] now[a]).0 != (
            #[trigger] now[b]).0 by {
                assert(now[a] == rest[a]);
                if b < rest.len() {
                    assert(now[b] == rest[b]);
                } else {
                    assert(has_url(rest, rest.len() as int, rest[a].0));
                    assert(url_map(rest).contains_key(rest[a].0));
                }
            }
        }
        self.media_by_url = pairs;
        self.media.insert(record.id.0, record);
    }

    /// The record of the stream `id`, if its download is going on.
    pub fn get(&self, id: MediaStreamId) -> (record: Option<Arc<MemoryRecord>>)
        requires
            self.wf(),
        ensures
            record is Some <==> self.records().dom().contains(id.0),
            record is Some ==> record->0 == self.records()[id.0] && record->0.id == id,
    {
        match self.media.get(&id.0) {
            Some(record) => Some(share(record)),
            None => None,
        }
    }

    /// The stream that the submitted URL `url` stands for, if its download is going on.
    pub fn stream_for_url(&self, url: &str) -> (id: Option<MediaStreamId>)
        requires
            self.wf(),
        ensures
            id is Some <==> self.by_url().contains_key(url@),
            id is Some ==> id->0 == self.by_url()[url@] && self.records().contains_key(
                self.by_url()[url@].0,
            ),
    {
        let ghost all = url_pairs(self.media_by_url@);
        proof {
            lemma_url_map_keys(all);
            lemma_url_map_values(all);
        }
        let mut i: usize = 0;
        while i < self.media_by_url.len()
            invariant
                i <= self.media_by_url.len(),
                all == url_pairs(self.media_by_url@),
                !has_url(all, i as int, url@),
                forall|k: int|
                    0 <= k < all.len() ==> url_map(all).contains_key((#[trigger] all[k]).0)
                        && url_map(all)[all[k].0] == all[k].1,
                forall|u: Seq<char>| #[trigger]
                    self.by_url().contains_key(u) ==> self.records().contains_key(
                        self.by_url()[u].0,
                    ),
            decreases self.media_by_url.len() - i,
        {
            if crate::text::same_text(self.media_by_url[i].0.as_str(), url) {
                assert(all[i as int].0 == url@);
                return Some(self.media_by_url[i].1);
            }
            assert(!has_url(all, i + 1, url@)) by {
                if has_url(all, i + 1, url@) {
                    let j = choose|j: int|
                        0 <= j < i + 1 && j < all.len() && (#[trigger] all[j]).0 == url@;
                    if j < i {
                        assert(has_url(all, i as int, url@));
                    }
                }
            }
            i += 1;
        }
        None
    }

    /// Forgets the download of the stream `id` that was submitted as `url`: its
    /// record, that URL, and every other URL that stands for the stream.
    pub fn remove(&mut self, id: MediaStreamId, url: &str)
        requires
            old(self).wf(),
        ensures
            final(self).wf(),
            final(self).records() == old(self).records().remove(id.0),
            final(self).by_url() == pruned(old(self).by_url(), url@, Some(id)),
    {
        let pairs = without(&self.media_by_url, url, Some(id));
        self.media_by_url = pairs;
        self.media.remove(&id.0);
        proof {
            assert forall|u: Seq<char>| #[trigger] self.by_url().contains_key(u) implies self.records().contains_key(
                self.by_url()[u].0,
            ) by {
                assert(old(self).by_url().contains_key(u));
                assert(old(self).by_url()[u] != id);
            }
        }
    }

    /// Looks a stream up. `archived` is the row of the stream in the database, if it has
    /// one: the row comes first, then the record in memory, which is the record of the
    /// stream asked for.
    pub fn load(&self, archived: Option<(ArchiveRecordId, ArchiveRecord)>, id: MediaStreamId) -> (r:
        Option<RecordKind>)
        requires
            self.wf(),
        ensures
            r == loaded(archived, self.records(), id),
            r matches Some(RecordKind::Memory(record)) ==> record.id == id,
    {
        match archived {
            Some((row_id, row)) => Some(RecordKind::Archive(row_id, row)),
            None => match self.get(id) {
                Some(record) => Some(RecordKind::Memory(record)),
                None => None,
            },
        }
    }

    /// Settles the registry once archiving has ended: the record leaves memory where
    /// the download was archived or has failed, and stays where the database failed.
    /// Returns whether it left.
    pub fn settle(&mut self, id: MediaStreamId, url: &str, outcome: &Result<(), ArchiveError>) -> (left:
        bool)
        requires
            old(self).wf(),
        ensures
            final(self).wf(),
            left == !(outcome is Err && outcome->Err_0.keeps_record()),
            left ==> final(self).records() == old(self).records().remove(id.0)
                && final(self).by_url() == pruned(old(self).by_url(), url@, Some(id)),
            !left ==> final(self).records() == old(self).records() && final(self).by_url()
                == old(self).by_url(),
    {
        let stays = match outcome {
            Err(ArchiveError::InsertThumbnail(_)) => true,
            Err(ArchiveError::InsertArchiveRecord(_)) => true,
            _ => false,
        };
        if stays {
            false
        } else {
            self.remove(id, url);
            true
        }
    }
}

/// What a lookup of the stream `id` finds: the row of the database where there is one,
/// else the record in memory, else nothing.
pub open spec fn loaded(
    archived: Option<(ArchiveRecordId, ArchiveRecord)>,
    memory: Map<u128, Arc<MemoryRecord>>,
    id: MediaStreamId,
) -> Option<RecordKind> {
    match archived {
        Some((row_id, row)) => Some(RecordKind::Archive(row_id, row)),
        None => if memory.dom().contains(id.0) {
            Some(RecordKind::Memory(memory[id.0]))
        } else {
            None
        },
    }
}

/// The rows of the database and the records in memory, as one state.
pub struct Store {
    pub rows: Map<u128, (ArchiveRecordId, ArchiveRecord)>,
    pub memory: Map<u128, Arc<MemoryRecord>>,
}

/// A change of the state.
pub enum Change {
    /// A download was started.
    Add(u128, Arc<MemoryRecord>),
    /// The row of a finished download was committed.
    Commit(u128, ArchiveRecordId, ArchiveRecord),
    /// The record of a download left memory.
    Cleanup(u128),
}

impl Store {
    /// The state after one change.
    pub open spec fn apply(self, change: Change) -> Store {
        match change {
            Change::Add(id, record) => Store { memory: self.memory.insert(id, record), ..self },
            Change::Commit(id, row_id, row) => Store {
                rows: self.rows.insert(id, (row_id, row)),
                ..self
            },
            Change::Cleanup(id) => Store { memory: self.memory.remove(id), ..self },
        }
    }

    /// The state after the changes `changes`, in order.
    pub open spec fn after(self, changes: Seq<Change>) -> Store
        decreases changes.len(),
    {
        if changes.len() == 0 {
            self
        } else {
            self.after(changes.drop_last()).apply(changes.last())
        }
    }

    /// What a lookup of the stream `id` finds in this state.
    pub open spec fn load(self, id: u128) -> Option<RecordKind> {
        loaded(
            if self.rows.dom().contains(id) {
                Some(self.rows[id])
            } else {
                None
            },
            self.memory,
            MediaStreamId(id),
        )
    }
}

/// The archive comes first: once the row of a stream is committed, every lookup of
/// the stream finds an archived record, whatever happens afterwards and whether or not
/// its record has left memory yet.
pub proof fn law_archive_precedence(
    store: Store,
    id: u128,
    row_id: ArchiveRecordId,
    row: ArchiveRecord,
    later: Seq<Change>,
)
    ensures
        store.apply(Change::Commit(id, row_id, row)).after(later).rows.dom().contains(id),
        store.apply(Change::Commit(id, row_id, row)).after(later).load(id) is Some,
        store.apply(Change::Commit(id, row_id, row)).after(later).load(id)->0 is Archive,
    decreases later.len(),
{
    if later.len() > 0 {
        law_archive_precedence(store, id, row_id, row, later.drop_last());
    }
}

/// The transition is never seen half done: a stream that can be looked up before its
/// row is committed can be looked up after the commit, and still after its record has
/// left memory.
pub proof fn law_transition_keeps_stream_visible(
    store: Store,
    id: u128,
    row_id: ArchiveRecordId,
    row: ArchiveRecord,
)
    ensures
        store.apply(Change::Commit(id, row_id, row)).load(id) == Some(
            RecordKind::Archive(row_id, row),
        ),
        store.apply(Change::Commit(id, row_id, row)).apply(Change::Cleanup(id)).load(id) == Some(
            RecordKind::Archive(row_id, row),
        ),
{
}

} // verus!
