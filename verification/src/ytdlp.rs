//! The extractor driver: the grammar of the lines that `yt-dlp` prints, and the two
//! phases of a download as state machines.
//!
//! The caller spawns the process and reads its output; each line read is handed to
//! [`parse_line`] and then to [`Startup::on_line`] or [`Download::on_line`], which say
//! what to record, what to publish and when to stop.

use crate::fs::{contained, joined, SharedDir, SharedFile};
use crate::text::{
    chars_of, find_from, first_at, lemma_first_at, lemma_first_at_skip, matches_at, opt_text,
    parse_digits, starts_with, string_between, string_of, trim, trimmed, unsigned_decimal,
};
use vstd::prelude::*;

verus! {

/// The error type of std's I/O, carried through unread.
#[verifier::external_type_specification]
#[verifier::external_body]
pub struct ExIoError(std::io::Error);

/// The error type of `serde_json`, carried through unread.
#[verifier::external_type_specification]
#[verifier::external_body]
pub struct ExJsonError(serde_json::Error);

/// How far a download has come: the bytes on disk so far, and the bytes expected in all.
#[derive(Clone, Copy, Debug, PartialEq, Eq, Structural)]
pub struct Progress {
    pub downloaded_bytes: u64,
    pub total_bytes: u64,
}

impl Progress {
    /// Whether every expected byte has arrived.
    pub fn complete(&self) -> (done: bool)
        ensures
            done == (self.downloaded_bytes == self.total_bytes),
    {
        self.downloaded_bytes == self.total_bytes
    }
}

/// What the extractor says of a media item: the fields of its info JSON that the server
/// reads. URLs are held as text.
#[derive(Debug)]
pub struct Metadata {
    pub title: Option<String>,
    pub full_title: Option<String>,
    pub uploader: Option<String>,
    pub uploader_url: Option<String>,
    pub description: Option<String>,
    pub webpage_url: Option<String>,
    pub genre: Option<String>,
    pub thumbnail: Option<String>,
    pub ext: String,
    pub audio_ext: String,
    pub video_ext: String,
}

/// The contents of a [`Metadata`].
pub struct MetadataView {
    pub title: Option<Seq<char>>,
    pub full_title: Option<Seq<char>>,
    pub uploader: Option<Seq<char>>,
    pub uploader_url: Option<Seq<char>>,
    pub description: Option<Seq<char>>,
    pub webpage_url: Option<Seq<char>>,
    pub genre: Option<Seq<char>>,
    pub thumbnail: Option<Seq<char>>,
    pub ext: Seq<char>,
    pub audio_ext: Seq<char>,
    pub video_ext: Seq<char>,
}

impl View for Metadata {
    type V = MetadataView;

    open spec fn view(&self) -> MetadataView {
        MetadataView {
            title: opt_text(self.title),
            full_title: opt_text(self.full_title),
            uploader: opt_text(self.uploader),
            uploader_url: opt_text(self.uploader_url),
            description: opt_text(self.description),
            webpage_url: opt_text(self.webpage_url),
            genre: opt_text(self.genre),
            thumbnail: opt_text(self.thumbnail),
            ext: self.ext@,
            audio_ext: self.audio_ext@,
            video_ext: self.video_ext@,
        }
    }
}

impl Clone for Metadata {
    fn clone(&self) -> (m: Self)
        ensures
            m@ == self@,
    {
        Metadata {
            title: self.title.clone(),
            full_title: self.full_title.clone(),
            uploader: self.uploader.clone(),
            uploader_url: self.uploader_url.clone(),
            description: self.description.clone(),
            webpage_url: self.webpage_url.clone(),
            genre: self.genre.clone(),
            thumbnail: self.thumbnail.clone(),
            ext: self.ext.clone(),
            audio_ext: self.audio_ext.clone(),
            video_ext: self.video_ext.clone(),
        }
    }
}

/// Why a metadata-only run of the extractor failed.
#[derive(Debug)]
pub enum FetchMetadataError {
    /// The process could not be started.
    Spawn(std::io::Error),
    /// The process failed; this is what it wrote to its error stream.
    CommandError(String),
    /// The process wrote something that is no metadata.
    ParseMetadata(serde_json::Error),
}

/// The most that is read of either output stream of a metadata-only run: 512 KiB.
pub const MAX_READ_SIZE: u64 = 524288;

/// What a finished metadata-only run yields: its output where it succeeded, and its
/// error output as a `CommandError` where it did not.
pub fn command_output(success: bool, stdout: String, stderr: String) -> (r: Result<
    String,
    FetchMetadataError,
>)
    ensures
        success ==> r is Ok && r->Ok_0@ == stdout@,
        !success ==> r is Err && r->Err_0 is CommandError && r->Err_0->CommandError_0@ == stderr@,
{
    if success {
        Ok(stdout)
    } else {
        Err(FetchMetadataError::CommandError(stderr))
    }
}

/// Why a download failed.
#[derive(Debug)]
pub enum DownloadError {
    /// The process could not be started.
    Spawn(std::io::Error),
    /// Its output could not be read, or ended too early.
    Read(std::io::Error),
    /// Its output did not hold what a download must report.
    YtDlp(&'static str),
    /// The process ended with a failure status.
    CommandError,
    /// The info JSON could not be read.
    ReadMetadata(std::io::Error),
    /// The info JSON is no metadata.
    ParseMetadata(serde_json::Error),
}

/// `std::io::Error::new` makes an error of the kind `UnexpectedEof` that carries
/// `message`. Nothing is claimed of it.
#[verifier::external_body]
fn eof_error(message: &'static str) -> std::io::Error {
    std::io::Error::new(std::io::ErrorKind::UnexpectedEof, message)
}

impl DownloadError {
    /// The error for output that ended before the download was reported complete.
    pub fn unexpected_eof() -> (e: Self)
        ensures
            e is Read,
    {
        DownloadError::Read(eof_error("yt-dlp terminated abruptly"))
    }
}

/// One line of the extractor's output.
#[derive(Debug, PartialEq, Eq)]
pub enum Line {
    Thumbnail { filename: String },
    Metadata { filename: String },
    Download { filename: String },
    Progress(Progress),
    Complete,
    Other(String),
}

/// The contents of a [`Line`].
pub enum LineView {
    Thumbnail { filename: Seq<char> },
    Metadata { filename: Seq<char> },
    Download { filename: Seq<char> },
    Progress(Progress),
    Complete,
    Other(Seq<char>),
}

impl View for Line {
    type V = LineView;

    open spec fn view(&self) -> LineView {
        match self {
            Line::Thumbnail { filename } => LineView::Thumbnail { filename: filename@ },
            Line::Metadata { filename } => LineView::Metadata { filename: filename@ },
            Line::Download { filename } => LineView::Download { filename: filename@ },
            Line::Progress(p) => LineView::Progress(*p),
            Line::Complete => LineView::Complete,
            Line::Other(s) => LineView::Other(s@),
        }
    }
}

/// What comes before the path in the line that reports the thumbnail.
pub open spec fn thumbnail_prefix() -> Seq<char> {
    "[info] Writing video thumbnail original to: "@
}

/// What comes before the path in the line that reports the info JSON.
pub open spec fn metadata_prefix() -> Seq<char> {
    "[info] Writing video metadata as JSON to: "@
}

/// What comes before the path in the line that reports the audio file.
pub open spec fn download_prefix() -> Seq<char> {
    "[download] Destination: "@
}

/// What a progress line begins with.
pub open spec fn progress_prefix() -> Seq<char> {
    "hailsplay-progress:D="@
}

/// What stands between the two numbers of a progress line.
pub open spec fn progress_infix() -> Seq<char> {
    ":T="@
}

/// What the line that reports the end of the download begins with.
pub open spec fn complete_prefix() -> Seq<char> {
    "[download] 100%"@
}

/// The path that `line` reports after `prefix`: the rest of the line, which holds no line
/// feed.
pub open spec fn path_after(line: Seq<char>, prefix: Seq<char>) -> Option<Seq<char>> {
    if prefix.is_prefix_of(line) && !line.skip(prefix.len() as int).contains('\n') {
        Some(line.skip(prefix.len() as int))
    } else {
        None
    }
}

/// The progress that `line` reports: `hailsplay-progress:D=<int>:T=<int>`, each number
/// one or more ASCII digits with a value below 2^64.
pub open spec fn progress_of(line: Seq<char>) -> Option<Progress> {
    if progress_prefix().is_prefix_of(line) {
        let rest = line.skip(progress_prefix().len() as int);
        match first_at(rest, 0, progress_infix()) {
            Some(k) => {
                let d = unsigned_decimal(rest.take(k), u64::MAX as int);
                let t = unsigned_decimal(
                    rest.skip(k + progress_infix().len()),
                    u64::MAX as int,
                );
                if d is Some && t is Some {
                    Some(Progress { downloaded_bytes: d->0 as u64, total_bytes: t->0 as u64 })
                } else {
                    None
                }
            },
            None => None,
        }
    } else {
        None
    }
}

/// The grammar of the extractor's output: what a line, already trimmed, means. The
/// shapes are tried in this order, and a line of no known shape is `Other`.
pub open spec fn line_of(line: Seq<char>) -> LineView {
    if path_after(line, thumbnail_prefix()) is Some {
        LineView::Thumbnail { filename: path_after(line, thumbnail_prefix())->0 }
    } else if path_after(line, metadata_prefix()) is Some {
        LineView::Metadata { filename: path_after(line, metadata_prefix())->0 }
    } else if path_after(line, download_prefix()) is Some {
        LineView::Download { filename: path_after(line, download_prefix())->0 }
    } else if progress_of(line) is Some {
        LineView::Progress(progress_of(line)->0)
    } else if complete_prefix().is_prefix_of(line) {
        LineView::Complete
    } else {
        LineView::Other(line)
    }
}

/// The path that `v` reports after `prefix`, if it has that shape.
fn take_path(v: &Vec<char>, prefix: &str) -> (r: Option<String>)
    ensures
        opt_text(r) == path_after(v@, prefix@),
{
    let p = chars_of(prefix);
    if !matches_at(v, 0, &p) {
        return None;
    }
    let mut i: usize = p.len();
    while i < v.len()
        invariant
            p@ == prefix@,
            p@.is_prefix_of(v@),
            p.len() <= i <= v.len(),
            forall|k: int| p.len() <= k < i ==> v@[k] != '\n',
        decreases v.len() - i,
    {
        if v[i] == '\n' {
            assert(v@.skip(p.len() as int)[i - p.len()] == '\n');
            return None;
        }
        i += 1;
    }
    assert(!v@.skip(p.len() as int).contains('\n')) by {
        if v@.skip(p.len() as int).contains('\n') {
            let k = choose|k: int|
                0 <= k < v@.skip(p.len() as int).len() && v@.skip(p.len() as int)[k] == '\n';
            assert(v@[p.len() + k] == '\n');
        }
    }
    let s = string_between(v, p.len(), v.len());
    assert(v@.subrange(p.len() as int, v@.len() as int) == v@.skip(p.len() as int));
    Some(s)
}

/// The progress that `v` reports, if it has that shape.
fn take_progress(v: &Vec<char>) -> (r: Option<Progress>)
    ensures
        r == progress_of(v@),
{
    let head = chars_of("hailsplay-progress:D=");
    let infix = chars_of(":T=");
    if !matches_at(v, 0, &head) {
        return None;
    }
    let ghost rest = v@.skip(head.len() as int);
    proof {
        lemma_first_at_skip(v@, head.len() as int, 0, infix@);
        lemma_first_at(v@, head.len() as int, infix@);
    }
    match find_from(v, head.len(), &infix) {
        None => None,
        Some(k) => {
            assert(crate::text::has_at(v@, k as int, infix@));
            assert(k + infix.len() <= v.len());
            assert(rest.take(k - head.len()) == v@.subrange(head.len() as int, k as int));
            assert(rest.skip(k - head.len() + infix@.len()) == v@.subrange(
                k + infix.len(),
                v@.len() as int,
            ));
            let d = parse_digits(v, head.len(), k);
            let t = parse_digits(v, k + infix.len(), v.len());
            match (d, t) {
                (Some(downloaded_bytes), Some(total_bytes)) => Some(
                    Progress { downloaded_bytes, total_bytes },
                ),
                _ => None,
            }
        },
    }
}

/// Reads one line of the extractor's output, already trimmed.
pub fn parse_line(line: &str) -> (r: Line)
    ensures
        r@ == line_of(line@),
{
    let v = chars_of(line);
    if let Some(filename) = take_path(&v, "[info] Writing video thumbnail original to: ") {
        return Line::Thumbnail { filename };
    }
    if let Some(filename) = take_path(&v, "[info] Writing video metadata as JSON to: ") {
        return Line::Metadata { filename };
    }
    if let Some(filename) = take_path(&v, "[download] Destination: ") {
        return Line::Download { filename };
    }
    if let Some(p) = take_progress(&v) {
        return Line::Progress(p);
    }
    if starts_with(&v, "[download] 100%") {
        return Line::Complete;
    }
    Line::Other(string_of(&v))
}

/// What a read from the extractor's output came to: `None` at the end of the output,
/// else the line, trimmed of white space at both ends and parsed. `read` is the number
/// of bytes that the read returned and `raw` the text it gave.
pub fn read_line(read: usize, raw: &str) -> (r: Option<Line>)
    ensures
        read == 0 ==> r is None,
        read != 0 ==> r is Some && r->0@ == line_of(trim(raw@)),
{
    if read == 0 {
        None
    } else {
        let v = trimmed(raw);
        let s = string_of(&v);
        Some(parse_line(s.as_str()))
    }
}

/// What a started download hands to its readers: the files that the extractor writes,
/// what it said of the media, and the progress at the time it was started.
#[derive(Debug)]
pub struct DownloadHandle {
    /// The audio file.
    pub file: SharedFile,
    /// The name of the audio file inside its scratch directory.
    pub filename: String,
    pub thumbnail: Option<SharedFile>,
    pub metadata: Metadata,
    pub metadata_file: SharedFile,
    /// The first progress reported, which fixes `total_bytes`.
    pub progress: Progress,
}

impl DownloadHandle {
    /// The name of the audio file inside its scratch directory.
    pub fn filename(&self) -> (name: String)
        ensures
            name@ == self.filename@,
    {
        self.filename.clone()
    }
}

/// What the startup phase has seen so far.
pub struct Startup {
    pub dir: SharedDir,
    /// The name of the audio file, once reported.
    pub file: Option<String>,
    /// The name of the thumbnail, once reported.
    pub thumbnail: Option<String>,
    /// The name of the info JSON, once reported.
    pub metadata: Option<String>,
    /// The latest progress reported.
    pub progress: Option<Progress>,
    /// Whether a file was reported that lies outside the scratch directory.
    pub stray: bool,
    /// Whether the download was reported complete.
    pub ended: bool,
}

/// The contents of a [`Startup`].
pub struct StartupView {
    pub dir: Seq<char>,
    pub file: Option<Seq<char>>,
    pub thumbnail: Option<Seq<char>>,
    pub metadata: Option<Seq<char>>,
    pub progress: Option<Progress>,
    pub stray: bool,
    pub ended: bool,
}

impl View for Startup {
    type V = StartupView;

    open spec fn view(&self) -> StartupView {
        StartupView {
            dir: self.dir.spec_path(),
            file: opt_text(self.file),
            thumbnail: opt_text(self.thumbnail),
            metadata: opt_text(self.metadata),
            progress: self.progress,
            stray: self.stray,
            ended: self.ended,
        }
    }
}

impl StartupView {
    /// Every file recorded lies inside the scratch directory.
    pub open spec fn wf(self) -> bool {
        &&& self.file is Some ==> contained(self.file->0)
        &&& self.thumbnail is Some ==> contained(self.thumbnail->0)
        &&& self.metadata is Some ==> contained(self.metadata->0)
    }

    /// Whether the audio file, the info JSON and a progress have all been reported.
    pub open spec fn ready(self) -> bool {
        self.file is Some && self.metadata is Some && self.progress is Some
    }

    /// Whether another line is to be read: nothing went wrong, the download was not
    /// reported complete, and something is still missing.
    pub open spec fn wants_more(self) -> bool {
        !self.stray && !self.ended && !self.ready()
    }

    /// The state after one more line. The latest report of each kind stands; a file
    /// outside the scratch directory is not recorded but marks the state.
    pub open spec fn step(self, line: LineView) -> StartupView {
        match line {
            LineView::Thumbnail { filename } => if contained(filename) {
                StartupView { thumbnail: Some(filename), ..self }
            } else {
                StartupView { stray: true, ..self }
            },
            LineView::Metadata { filename } => if contained(filename) {
                StartupView { metadata: Some(filename), ..self }
            } else {
                StartupView { stray: true, ..self }
            },
            LineView::Download { filename } => if contained(filename) {
                StartupView { file: Some(filename), ..self }
            } else {
                StartupView { stray: true, ..self }
            },
            LineView::Progress(p) => StartupView { progress: Some(p), ..self },
            LineView::Complete => StartupView { ended: true, ..self },
            LineView::Other(_) => self,
        }
    }

    /// Why the startup phase fails in this state, if it does. The first of these that
    /// holds decides.
    pub open spec fn failure(self) -> Option<Seq<char>> {
        if self.stray {
            Some(stray_message())
        } else if self.file is None {
            Some(missing_download_message())
        } else if self.metadata is None {
            Some(missing_metadata_message())
        } else if self.progress is None {
            Some(missing_progress_message())
        } else if !self.wf() {
            Some(stray_message())
        } else {
            None
        }
    }
}

/// The message for a reported file that lies outside the scratch directory.
pub open spec fn stray_message() -> Seq<char> {
    "yt-dlp reported a file outside its working directory"@
}

/// The message for output without the line that names the audio file.
pub open spec fn missing_download_message() -> Seq<char> {
    "missing download filename in yt-dlp output"@
}

/// The message for output without the line that names the info JSON.
pub open spec fn missing_metadata_message() -> Seq<char> {
    "missing metadata filename in yt-dlp output"@
}

/// The message for output without a progress line.
pub open spec fn missing_progress_message() -> Seq<char> {
    "yt-dlp never started reporting progress"@
}

/// What the startup phase yields where it succeeds.
#[derive(Debug)]
pub struct Started {
    pub file: SharedFile,
    pub filename: String,
    pub thumbnail: Option<SharedFile>,
    pub metadata_file: SharedFile,
    pub progress: Progress,
}

impl Started {
    /// The handle of the download, once the info JSON has been read and parsed.
    pub fn into_handle(self, metadata: Metadata) -> (handle: DownloadHandle)
        ensures
            handle.file == self.file,
            handle.filename == self.filename,
            handle.thumbnail == self.thumbnail,
            handle.metadata == metadata,
            handle.metadata_file == self.metadata_file,
            handle.progress == self.progress,
    {
        DownloadHandle {
            file: self.file,
            filename: self.filename,
            thumbnail: self.thumbnail,
            metadata,
            metadata_file: self.metadata_file,
            progress: self.progress,
        }
    }
}

impl Startup {
    /// The state before any line was read.
    pub fn new(dir: SharedDir) -> (s: Self)
        ensures
            s@ == (StartupView {
                dir: dir.spec_path(),
                file: None,
                thumbnail: None,
                metadata: None,
                progress: None,
                stray: false,
                ended: false,
            }),
            s@.wf(),
            s@.wants_more(),
    {
        Startup {
            dir,
            file: None,
            thumbnail: None,
            metadata: None,
            progress: None,
            stray: false,
            ended: false,
        }
    }

    /// Takes one line of output into account, and says whether another is to be read.
    pub fn on_line(&mut self, line: Line) -> (more: bool)
        ensures
            final(self)@ == old(self)@.step(line@),
            old(self)@.wf() ==> final(self)@.wf(),
            more == final(self)@.wants_more(),
    {
        match line {
            Line::Thumbnail { filename } => {
                if crate::fs::is_contained(filename.as_str()) {
                    self.thumbnail = Some(filename);
                } else {
                    self.stray = true;
                }
            },
            Line::Metadata { filename } => {
                if crate::fs::is_contained(filename.as_str()) {
                    self.metadata = Some(filename);
                } else {
                    self.stray = true;
                }
            },
            Line::Download { filename } => {
                if crate::fs::is_contained(filename.as_str()) {
                    self.file = Some(filename);
                } else {
                    self.stray = true;
                }
            },
            Line::Progress(p) => {
                self.progress = Some(p);
            },
            Line::Complete => {
                self.ended = true;
            },
            Line::Other(_) => {},
        }
        !self.stray && !self.ended && !(self.file.is_some() && self.metadata.is_some()
            && self.progress.is_some())
    }

    /// Ends the startup phase, at the end of the output or when no more lines are wanted:
    /// claims the reported files from the scratch directory, or says what is missing.
    pub fn finish(self) -> (r: Result<Started, DownloadError>)
        ensures
            r is Err <==> self@.failure() is Some,
            r is Err ==> r->Err_0 is YtDlp && r->Err_0->YtDlp_0@ == self@.failure()->0,
            r is Ok ==> {
                let s = r->Ok_0;
                &&& s.filename@ == self@.file->0
                &&& s.file.spec_path() == joined(self@.dir, self@.file->0)
                &&& s.file.spec_dir() == Some(self@.dir)
                &&& s.metadata_file.spec_path() == joined(self@.dir, self@.metadata->0)
                &&& s.metadata_file.spec_dir() == Some(self@.dir)
                &&& s.thumbnail is Some <==> self@.thumbnail is Some
                &&& s.thumbnail is Some ==> s.thumbnail->0.spec_path() == joined(
                    self@.dir,
                    self@.thumbnail->0,
                ) && s.thumbnail->0.spec_dir() == Some(self@.dir)
                &&& s.progress == self@.progress->0
            },
    {
        if self.stray {
            return Err(DownloadError::YtDlp("yt-dlp reported a file outside its working directory"));
        }
        let Some(filename) = self.file else {
            return Err(DownloadError::YtDlp("missing download filename in yt-dlp output"));
        };
        let Some(metadata_name) = self.metadata else {
            return Err(DownloadError::YtDlp("missing metadata filename in yt-dlp output"));
        };
        let Some(progress) = self.progress else {
            return Err(DownloadError::YtDlp("yt-dlp never started reporting progress"));
        };
        let file = self.dir.claim_external_file(filename.as_str());
        let metadata_file = self.dir.claim_external_file(metadata_name.as_str());
        let thumbnail = match self.thumbnail {
            Some(name) => match self.dir.claim_external_file(name.as_str()) {
                Some(f) => Some(f.into_shared()),
                None => {
                    return Err(
                        DownloadError::YtDlp("yt-dlp reported a file outside its working directory"),
                    );
                },
            },
            None => None,
        };
        match (file, metadata_file) {
            (Some(file), Some(metadata_file)) => Ok(
                Started {
                    file: file.into_shared(),
                    filename,
                    thumbnail,
                    metadata_file: metadata_file.into_shared(),
                    progress,
                },
            ),
            _ => Err(DownloadError::YtDlp("yt-dlp reported a file outside its working directory")),
        }
    }
}

/// The background phase of a download: what is published while the rest of the
/// output is read. What is published never goes down: a progress line that reports
/// fewer bytes than were published last, or more than there are in all, is passed over.
#[derive(Clone, Copy, Debug, PartialEq, Eq, Structural)]
pub struct Download {
    /// The size that the startup phase learned.
    pub total_bytes: u64,
    /// The progress published last; at first, the progress that the handle was made
    /// with.
    pub last: Progress,
    /// Whether the download was reported complete; what follows is read and dropped.
    pub finished: bool,
}

/// How a download ended.
pub enum Outcome {
    /// Reported complete, and the process succeeded.
    Done,
    /// The output ended before the download was reported complete.
    Abrupt,
    /// Reported complete, but the process failed.
    Failed,
}

impl Download {
    /// The progress with every byte downloaded.
    pub open spec fn full(self) -> Progress {
        Progress { downloaded_bytes: self.total_bytes, total_bytes: self.total_bytes }
    }

    /// Whether the progress `p` is published: it reports no fewer bytes than were
    /// published last, and no more than there are in all.
    pub open spec fn accepts(self, p: Progress) -> bool {
        self.last.downloaded_bytes <= p.downloaded_bytes <= self.total_bytes
    }

    /// The state after one more line, and what that line publishes. A progress line
    /// publishes what it reports, where that is accepted. The line that reports the end
    /// publishes the progress with every byte downloaded, unless more than that was
    /// published already. After that line nothing is published.
    pub open spec fn step(self, line: LineView) -> (Download, Option<Progress>) {
        if self.finished {
            (self, None)
        } else {
            match line {
                LineView::Progress(p) => if self.accepts(p) {
                    (Download { last: p, ..self }, Some(p))
                } else {
                    (self, None)
                },
                LineView::Complete => if self.last.downloaded_bytes <= self.total_bytes {
                    (Download { last: self.full(), finished: true, ..self }, Some(self.full()))
                } else {
                    (Download { finished: true, ..self }, None)
                },
                _ => (self, None),
            }
        }
    }

    /// The state after the lines `lines`.
    pub open spec fn after(self, lines: Seq<LineView>) -> Download
        decreases lines.len(),
    {
        if lines.len() == 0 {
            self
        } else {
            self.after(lines.drop_last()).step(lines.last()).0
        }
    }

    /// Everything published while the lines `lines` are read, in order.
    pub open spec fn published(self, lines: Seq<LineView>) -> Seq<Progress>
        decreases lines.len(),
    {
        if lines.len() == 0 {
            Seq::empty()
        } else {
            let before = self.published(lines.drop_last());
            match self.after(lines.drop_last()).step(lines.last()).1 {
                Some(p) => before.push(p),
                None => before,
            }
        }
    }

    /// How a download ends whose output was `lines` and whose process succeeded or not.
    pub open spec fn outcome(self, lines: Seq<LineView>, success: bool) -> Outcome {
        if !self.after(lines).finished {
            Outcome::Abrupt
        } else if success {
            Outcome::Done
        } else {
            Outcome::Failed
        }
    }

    /// The state at the start of the background phase, for a handle that was made with
    /// the progress `progress`.
    pub open spec fn new_spec(progress: Progress) -> Download {
        Download { total_bytes: progress.total_bytes, last: progress, finished: false }
    }

    /// The state at the start of the background phase. `progress` is the progress that
    /// the handle was made with: it fixes the size, and nothing below it is published.
    pub fn new(progress: Progress) -> (d: Self)
        ensures
            d == Download::new_spec(progress),
    {
        Download { total_bytes: progress.total_bytes, last: progress, finished: false }
    }

    /// Takes one line of output into account and returns what is to be published.
    pub fn on_line(&mut self, line: &Line) -> (publish: Option<Progress>)
        ensures
            (*final(self), publish) == old(self).step(line@),
            publish is Some ==> old(self).last.downloaded_bytes
                <= publish->0.downloaded_bytes && final(self).last == publish->0,
    {
        if self.finished {
            return None;
        }
        match line {
            Line::Progress(p) => {
                if self.last.downloaded_bytes <= p.downloaded_bytes && p.downloaded_bytes
                    <= self.total_bytes {
                    self.last = *p;
                    Some(*p)
                } else {
                    None
                }
            },
            Line::Complete => {
                self.finished = true;
                if self.last.downloaded_bytes <= self.total_bytes {
                    let full = Progress {
                        downloaded_bytes: self.total_bytes,
                        total_bytes: self.total_bytes,
                    };
                    self.last = full;
                    Some(full)
                } else {
                    None
                }
            },
            _ => None,
        }
    }

    /// What the end of the output means: the process is to be awaited where the download
    /// was reported complete, and the download has failed where it was not.
    pub fn on_eof(&self) -> (r: Result<(), DownloadError>)
        ensures
            self.finished ==> r is Ok,
            !self.finished ==> r is Err && r->Err_0 is Read,
    {
        if self.finished {
            Ok(())
        } else {
            Err(DownloadError::unexpected_eof())
        }
    }

    /// What the exit status of the process means for a download that was reported
    /// complete.
    pub fn on_exit(&self, success: bool) -> (r: Result<(), DownloadError>)
        ensures
            success ==> r is Ok,
            !success ==> r is Err && r->Err_0 is CommandError,
    {
        if success {
            Ok(())
        } else {
            Err(DownloadError::CommandError)
        }
    }

    /// Runs the background phase over a whole output: returns everything published, and
    /// how the download ended. `progress` is the progress that the handle was made with.
    pub fn replay(progress: Progress, lines: &Vec<Line>, success: bool) -> (r: (
        Vec<Progress>,
        Result<(), DownloadError>,
    ))
        ensures
            r.0@ == Download::new_spec(progress).published(lines_view(lines@)),
            ascending(seq![progress] + r.0@),
            match Download::new_spec(progress).outcome(lines_view(lines@), success) {
                Outcome::Done => r.1 is Ok,
                Outcome::Abrupt => r.1 is Err && r.1->Err_0 is Read,
                Outcome::Failed => r.1 is Err && r.1->Err_0 is CommandError,
            },
    {
        let mut state = Download::new(progress);
        let mut out: Vec<Progress> = Vec::new();
        let mut i: usize = 0;
        let ghost all = lines_view(lines@);
        while i < lines.len()
            invariant
                i <= lines.len(),
                all == lines_view(lines@),
                state == Download::new_spec(progress).after(all.take(i as int)),
                out@ == Download::new_spec(progress).published(all.take(i as int)),
            decreases lines.len() - i,
        {
            let p = state.on_line(&lines[i]);
            proof {
                assert(all.take(i + 1).drop_last() == all.take(i as int));
                assert(all.take(i + 1).last() == lines@[i as int]@);
            }
            if let Some(p) = p {
                out.push(p);
            }
            i += 1;
        }
        proof {
            assert(all.take(all.len() as int) == all);
            law_progress_monotone(progress, all);
        }
        let result = match state.on_eof() {
            Ok(()) => state.on_exit(success),
            Err(e) => Err(e),
        };
        (out, result)
    }
}

/// The contents of a list of lines.
pub open spec fn lines_view(lines: Seq<Line>) -> Seq<LineView> {
    lines.map_values(|l: Line| l@)
}

/// Whether the downloaded bytes of `s` never go down.
pub open spec fn ascending(s: Seq<Progress>) -> bool {
    forall|i: int, j: int|
        0 <= i <= j < s.len() ==> (#[trigger] s[i]).downloaded_bytes <= (
        #[trigger] s[j]).downloaded_bytes
}

/// Whether no progress of `s` has more downloaded bytes than `limit`.
pub open spec fn bounded(s: Seq<Progress>, limit: u64) -> bool {
    forall|i: int| 0 <= i < s.len() ==> (#[trigger] s[i]).downloaded_bytes <= limit
}

/// Whether one of `lines` reports the end of the download.
pub open spec fn reports_complete(lines: Seq<LineView>) -> bool
    decreases lines.len(),
{
    if lines.len() == 0 {
        false
    } else {
        reports_complete(lines.drop_last()) || lines.last() is Complete
    }
}

/// What the progress lines among `lines` report, in order, up to the line that reports
/// the end of the download.
pub open spec fn reported(lines: Seq<LineView>) -> Seq<Progress>
    decreases lines.len(),
{
    if lines.len() == 0 {
        Seq::empty()
    } else {
        let before = reported(lines.drop_last());
        if reports_complete(lines.drop_last()) {
            before
        } else {
            match lines.last() {
                LineView::Progress(p) => before.push(p),
                _ => before,
            }
        }
    }
}

/// A sequence with one more progress at its end never goes down exactly where the
/// sequence never goes down and stays at or below that progress.
proof fn lemma_ascending_push(s: Seq<Progress>, p: Progress)
    ensures
        ascending(s.push(p)) <==> ascending(s) && bounded(s, p.downloaded_bytes),
{
    let t = s.push(p);
    if ascending(t) {
        assert forall|i: int, j: int| 0 <= i <= j < s.len() implies (
        #[trigger] s[i]).downloaded_bytes <= (#[trigger] s[j]).downloaded_bytes by {
            assert(t[i] == s[i]);
            assert(t[j] == s[j]);
        }
        assert forall|i: int| 0 <= i < s.len() implies (#[trigger] s[i]).downloaded_bytes
            <= p.downloaded_bytes by {
            assert(t[i] == s[i]);
            assert(t[s.len() as int] == p);
        }
    }
    if ascending(s) && bounded(s, p.downloaded_bytes) {
        assert forall|i: int, j: int| 0 <= i <= j < t.len() implies (
        #[trigger] t[i]).downloaded_bytes <= (#[trigger] t[j]).downloaded_bytes by {
            if j < s.len() {
                assert(t[i] == s[i]);
                assert(t[j] == s[j]);
            } else if i < s.len() {
                assert(t[i] == s[i]);
            }
        }
    }
}

/// What a run publishes, with the progress it started from in front, never goes down
/// and ends with the progress published last; the size stays; and a run that started
/// at or below the size stays at or below it.
pub proof fn lemma_run(d: Download, lines: Seq<LineView>)
    ensures
        ascending(seq![d.last] + d.published(lines)),
        (seq![d.last] + d.published(lines)).last() == d.after(lines).last,
        d.after(lines).total_bytes == d.total_bytes,
        d.last.downloaded_bytes <= d.total_bytes ==> d.after(lines).last.downloaded_bytes
            <= d.total_bytes,
        d.after(lines).finished == (d.finished || reports_complete(lines)),
        !d.finished && reports_complete(lines) && d.last.downloaded_bytes <= d.total_bytes
            ==> d.published(lines).len() > 0 && d.published(lines).last() == d.full(),
    decreases lines.len(),
{
    if lines.len() == 0 {
        assert(seq![d.last] + d.published(lines) =~= seq![d.last]);
    } else {
        let init = lines.drop_last();
        lemma_run(d, init);
        let s = seq![d.last] + d.published(init);
        let mid = d.after(init);
        match mid.step(lines.last()).1 {
            Some(p) => {
                assert(seq![d.last] + d.published(lines) =~= s.push(p));
                assert(bounded(s, p.downloaded_bytes)) by {
                    assert forall|i: int| 0 <= i < s.len() implies (
                    #[trigger] s[i]).downloaded_bytes <= p.downloaded_bytes by {
                        assert(s[i].downloaded_bytes <= s[s.len() - 1].downloaded_bytes);
                    }
                }
                lemma_ascending_push(s, p);
            },
            None => {
                assert(seq![d.last] + d.published(lines) =~= s);
            },
        }
    }
}

/// Progress is monotone: whatever the extractor prints, the downloaded bytes
/// published never go down, starting from the progress that the handle was made with.
pub proof fn law_progress_monotone(progress: Progress, lines: Seq<LineView>)
    ensures
        ascending(seq![progress] + Download::new_spec(progress).published(lines)),
        ascending(Download::new_spec(progress).published(lines)),
{
    let d = Download::new_spec(progress);
    lemma_run(d, lines);
    let s = seq![progress] + d.published(lines);
    assert forall|i: int, j: int| 0 <= i <= j < d.published(lines).len() implies (
    #[trigger] d.published(lines)[i]).downloaded_bytes <= (
    #[trigger] d.published(lines)[j]).downloaded_bytes by {
        assert(s[i + 1] == d.published(lines)[i]);
        assert(s[j + 1] == d.published(lines)[j]);
    }
}

/// Nothing is lost of a steady extractor: where what the extractor reports never goes
/// down, starts at or above the progress that the handle was made with and never exceeds
/// the size, what is published is what it reported up to the end of the download, and
/// then, where the download was reported complete, the progress with every byte
/// downloaded.
pub proof fn law_steady_progress_is_published(progress: Progress, lines: Seq<LineView>)
    requires
        ascending(seq![progress] + reported(lines)),
        bounded(seq![progress] + reported(lines), progress.total_bytes),
    ensures
        Download::new_spec(progress).published(lines) == if reports_complete(lines) {
            reported(lines).push(Download::new_spec(progress).full())
        } else {
            reported(lines)
        },
    decreases lines.len(),
{
    let d = Download::new_spec(progress);
    if lines.len() > 0 {
        let init = lines.drop_last();
        let full = seq![progress] + reported(lines);
        let part = seq![progress] + reported(init);
        assert(part.len() <= full.len());
        assert forall|i: int| 0 <= i < part.len() implies #[trigger] part[i] == full[i] by {
            if i > 0 {
                assert(part[i] == reported(init)[i - 1]);
                assert(full[i] == reported(lines)[i - 1]);
            }
        }
        assert(ascending(part)) by {
            assert forall|i: int, j: int| 0 <= i <= j < part.len() implies (
            #[trigger] part[i]).downloaded_bytes <= (#[trigger] part[j]).downloaded_bytes by {
                assert(part[i] == full[i]);
                assert(part[j] == full[j]);
                assert(full[i].downloaded_bytes <= full[j].downloaded_bytes);
            }
        }
        assert(bounded(part, progress.total_bytes)) by {
            assert forall|i: int| 0 <= i < part.len() implies (
            #[trigger] part[i]).downloaded_bytes <= progress.total_bytes by {
                assert(part[i] == full[i]);
                assert(full[i].downloaded_bytes <= progress.total_bytes);
            }
        }
        law_steady_progress_is_published(progress, init);
        lemma_run(d, init);
        if !reports_complete(init) {
            assert(seq![progress] + d.published(init) == part);
            match lines.last() {
                LineView::Progress(p) => {
                    assert(full[full.len() - 1] == p);
                    assert(part[part.len() - 1] == full[part.len() - 1]);
                    assert(full[part.len() - 1].downloaded_bytes <= full[full.len()
                        - 1].downloaded_bytes);
                    assert(full[full.len() - 1].downloaded_bytes <= progress.total_bytes);
                },
                _ => {},
            }
        }
    }
}

/// A download succeeds exactly where it was reported complete and the process
/// succeeded; and where the handle was made with no more bytes downloaded than there are
/// in all, the last progress published then has every byte downloaded.
pub proof fn law_success_is_complete(progress: Progress, lines: Seq<LineView>, success: bool)
    ensures
        ({
            let d = Download::new_spec(progress);
            &&& d.outcome(lines, success) is Done <==> reports_complete(lines) && success
            &&& d.outcome(lines, success) is Done && progress.downloaded_bytes
                <= progress.total_bytes ==> d.published(lines).len() > 0 && d.published(
                lines,
            ).last().downloaded_bytes == progress.total_bytes && d.published(
                lines,
            ).last().total_bytes == progress.total_bytes
        }),
{
    lemma_run(Download::new_spec(progress), lines);
}

} // verus!
