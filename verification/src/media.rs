//! The body of a range response over a file that is still being written.
//!
//! The body knows the size of the finished file from the start, and lets a seek or a
//! read through only when the download has produced the bytes it needs. The caller owns
//! the file and the subscription to the progress of the download: it asks
//! [`StreamingDownload::poll_complete`] and [`StreamingDownload::poll_read`] what to do,
//! does it, and reports back.

use crate::ytdlp::Progress;
use vstd::prelude::*;

verus! {

/// Where the body stands in the file.
#[derive(Clone, Copy, Debug, PartialEq, Eq, Structural)]
pub enum Seek {
    /// At this offset, with no seek going on.
    At(u64),
    /// A seek to this offset was asked for and waits for the download.
    SeekTo(u64),
    /// The file is seeking to this offset.
    Seeking(u64),
}

/// A misuse of the body.
#[derive(Clone, Copy, Debug, PartialEq, Eq, Structural)]
pub enum BodyError {
    /// A seek was started while another was going on.
    AlreadySeeking,
    /// The end of a seek was asked for while none was going on.
    NotSeeking,
    /// A read was asked for while a seek was going on.
    ReadWhileSeeking,
}

impl BodyError {
    /// The message for this misuse.
    pub fn message(&self) -> (m: &'static str)
        ensures
            m@ == match self {
                BodyError::AlreadySeeking => "start seek while already seeking"@,
                BodyError::NotSeeking => "poll complete while not seeking"@,
                BodyError::ReadWhileSeeking => "read while seeking"@,
            },
    {
        match self {
            BodyError::AlreadySeeking => "start seek while already seeking",
            BodyError::NotSeeking => "poll complete while not seeking",
            BodyError::ReadWhileSeeking => "read while seeking",
        }
    }
}

/// The latest progress seen of a download, and whether more can come.
#[derive(Clone, Copy, Debug, PartialEq, Eq, Structural)]
pub struct PollProgress {
    /// The latest progress published.
    pub current: Progress,
    /// Whether the publisher has gone: no further progress will come.
    pub closed: bool,
}

impl PollProgress {
    /// Whether the byte at `position` can be read: the download is complete, or has
    /// passed `position`, or will report nothing more.
    pub open spec fn readable(self, position: u64) -> bool {
        self.current.downloaded_bytes == self.current.total_bytes || position
            < self.current.downloaded_bytes || self.closed
    }

    /// Whether the file can be positioned at `position`: the download is complete, or
    /// has reached `position`, or will report nothing more.
    pub open spec fn reachable(self, position: u64) -> bool {
        self.current.downloaded_bytes == self.current.total_bytes || position
            <= self.current.downloaded_bytes || self.closed
    }

    /// What is known after the next answer of the subscription: a new progress, or its
    /// end.
    pub open spec fn observed(self, next: Option<Progress>) -> PollProgress {
        match next {
            Some(p) => PollProgress { current: p, closed: self.closed },
            None => PollProgress { current: self.current, closed: true },
        }
    }

    /// Starts from the progress that the subscription holds now.
    pub fn new(current: Progress) -> (p: Self)
        ensures
            p == (PollProgress { current, closed: false }),
    {
        PollProgress { current, closed: false }
    }

    /// Whether the byte at `position` can be read.
    pub fn poll_ready(&self, position: u64) -> (ready: bool)
        ensures
            ready == self.readable(position),
    {
        self.current.complete() || position < self.current.downloaded_bytes || self.closed
    }

    /// Whether the file can be positioned at `position`.
    pub fn poll_reached(&self, position: u64) -> (ready: bool)
        ensures
            ready == self.reachable(position),
    {
        self.current.complete() || position <= self.current.downloaded_bytes || self.closed
    }

    /// Takes the next answer of the subscription into account.
    pub fn observe(&mut self, next: Option<Progress>)
        ensures
            *final(self) == old(self).observed(next),
    {
        match next {
            Some(p) => {
                self.current = p;
            },
            None => {
                self.closed = true;
            },
        }
    }
}

/// What the caller is to do to bring a seek forward.
#[derive(Clone, Copy, Debug, PartialEq, Eq, Structural)]
pub enum SeekStep {
    /// Nothing: the call was a misuse.
    Fail(BodyError),
    /// Wait for the next answer of the progress subscription, hand it to `observe`,
    /// and ask again.
    AwaitProgress,
    /// Start seeking the file to this offset, then ask again.
    StartFileSeek(u64),
    /// Wait for the file to finish seeking, then call `seek_done`.
    AwaitFile,
}

/// What the caller is to do to bring a read forward.
#[derive(Clone, Copy, Debug, PartialEq, Eq, Structural)]
pub enum ReadStep {
    /// Nothing: the call was a misuse.
    Fail(BodyError),
    /// Wait for the next answer of the progress subscription, hand it to `observe`,
    /// and ask again.
    AwaitProgress,
    /// Read once from the file, then report the number of bytes read to `read_done`.
    ReadFile,
}

/// The body of a response over a file that a download is still writing.
#[derive(Clone, Copy, Debug, PartialEq, Eq, Structural)]
pub struct StreamingDownload {
    /// The size of the finished file, fixed when the body is made.
    pub total_bytes: u64,
    pub seek: Seek,
    pub progress: PollProgress,
}

impl StreamingDownload {
    /// The offset that a seek to `position` goes to: `position`, but not beyond the end.
    pub open spec fn clamped(self, position: u64) -> u64 {
        if position < self.total_bytes {
            position
        } else {
            self.total_bytes
        }
    }

    /// The body after a seek to `position` was asked for.
    pub open spec fn seek_started(self, position: u64) -> StreamingDownload {
        match self.seek {
            Seek::At(_) => StreamingDownload { seek: Seek::SeekTo(self.clamped(position)), ..self },
            _ => self,
        }
    }

    /// The step that brings a seek forward, and the body after it was handed out.
    pub open spec fn seek_step(self) -> (StreamingDownload, SeekStep) {
        match self.seek {
            Seek::At(_) => (self, SeekStep::Fail(BodyError::NotSeeking)),
            Seek::SeekTo(pos) => if self.progress.reachable(pos) {
                (StreamingDownload { seek: Seek::Seeking(pos), ..self }, SeekStep::StartFileSeek(pos))
            } else {
                (self, SeekStep::AwaitProgress)
            },
            Seek::Seeking(_) => (self, SeekStep::AwaitFile),
        }
    }

    /// The step that brings a read forward.
    pub open spec fn read_step(self) -> ReadStep {
        match self.seek {
            Seek::At(pos) => if self.progress.readable(pos) {
                ReadStep::ReadFile
            } else {
                ReadStep::AwaitProgress
            },
            _ => ReadStep::Fail(BodyError::ReadWhileSeeking),
        }
    }

    /// The body after the file finished seeking.
    pub open spec fn seek_finished(self) -> StreamingDownload {
        match self.seek {
            Seek::Seeking(pos) => StreamingDownload { seek: Seek::At(pos), ..self },
            _ => self,
        }
    }

    /// The body after a read of `bytes_read` bytes.
    pub open spec fn read_finished(self, bytes_read: u64) -> StreamingDownload {
        match self.seek {
            Seek::At(pos) => StreamingDownload {
                seek: Seek::At((pos + bytes_read) as u64),
                ..self
            },
            _ => self,
        }
    }

    /// The body after the next answer of the progress subscription.
    pub open spec fn observed(self, next: Option<Progress>) -> StreamingDownload {
        StreamingDownload { progress: self.progress.observed(next), ..self }
    }

    /// A body at the start of the file. `progress` is the progress of the download now;
    /// its total is the size of the body from here on.
    pub fn new(progress: Progress) -> (body: Self)
        ensures
            body == (StreamingDownload {
                total_bytes: progress.total_bytes,
                seek: Seek::At(0),
                progress: PollProgress { current: progress, closed: false },
            }),
    {
        StreamingDownload {
            total_bytes: progress.total_bytes,
            seek: Seek::At(0),
            progress: PollProgress::new(progress),
        }
    }

    /// The size of the finished file.
    pub fn byte_size(&self) -> (size: u64)
        ensures
            size == self.total_bytes,
    {
        self.total_bytes
    }

    /// The offset at which the body stands or to which it is going.
    pub fn position(&self) -> (pos: u64)
        ensures
            pos == match self.seek {
                Seek::At(p) => p,
                Seek::SeekTo(p) => p,
                Seek::Seeking(p) => p,
            },
    {
        match self.seek {
            Seek::At(p) => p,
            Seek::SeekTo(p) => p,
            Seek::Seeking(p) => p,
        }
    }

    /// Asks for a seek to `position`, which is clamped to the size of the file. Refused
    /// while a seek is going on.
    pub fn start_seek(&mut self, position: u64) -> (r: Result<(), BodyError>)
        ensures
            *final(self) == old(self).seek_started(position),
            r is Ok <==> old(self).seek is At,
            r is Err ==> r->Err_0 == BodyError::AlreadySeeking,
    {
        let seek_to = if position < self.total_bytes {
            position
        } else {
            self.total_bytes
        };
        match self.seek {
            Seek::At(_) => {
                self.seek = Seek::SeekTo(seek_to);
                Ok(())
            },
            _ => Err(BodyError::AlreadySeeking),
        }
    }

    /// Says what brings the seek forward. The file is sought only once the download has
    /// reached the offset.
    pub fn poll_complete(&mut self) -> (step: SeekStep)
        ensures
            (*final(self), step) == old(self).seek_step(),
    {
        match self.seek {
            Seek::At(_) => SeekStep::Fail(BodyError::NotSeeking),
            Seek::SeekTo(pos) => {
                if self.progress.poll_reached(pos) {
                    self.seek = Seek::Seeking(pos);
                    SeekStep::StartFileSeek(pos)
                } else {
                    SeekStep::AwaitProgress
                }
            },
            Seek::Seeking(_) => SeekStep::AwaitFile,
        }
    }

    /// Records that the file finished seeking.
    pub fn seek_done(&mut self)
        ensures
            *final(self) == old(self).seek_finished(),
    {
        if let Seek::Seeking(pos) = self.seek {
            self.seek = Seek::At(pos);
        }
    }

    /// Says what brings a read forward. The file is read only once the download has
    /// passed the offset at which the body stands.
    pub fn poll_read(&self) -> (step: ReadStep)
        ensures
            step == self.read_step(),
    {
        match self.seek {
            Seek::At(pos) => {
                if self.progress.poll_ready(pos) {
                    ReadStep::ReadFile
                } else {
                    ReadStep::AwaitProgress
                }
            },
            _ => ReadStep::Fail(BodyError::ReadWhileSeeking),
        }
    }

    /// Records a read of `bytes_read` bytes: the body moves on by as many.
    pub fn read_done(&mut self, bytes_read: u64)
        requires
            old(self).seek matches Seek::At(pos) ==> pos + bytes_read <= u64::MAX,
        ensures
            *final(self) == old(self).read_finished(bytes_read),
    {
        if let Seek::At(pos) = self.seek {
            self.seek = Seek::At(pos + bytes_read);
        }
    }

    /// Records a read of `bytes_read` bytes where the new offset fits in 64 bits, and
    /// says whether it did; where it does not, nothing changes.
    pub fn try_read_done(&mut self, bytes_read: u64) -> (moved: bool)
        ensures
            moved == (old(self).seek matches Seek::At(pos) ==> pos + bytes_read <= u64::MAX),
            moved ==> *final(self) == old(self).read_finished(bytes_read),
            !moved ==> *final(self) == *old(self),
    {
        match self.seek {
            Seek::At(pos) => {
                if bytes_read <= u64::MAX - pos {
                    self.read_done(bytes_read);
                    true
                } else {
                    false
                }
            },
            _ => {
                self.read_done(bytes_read);
                true
            },
        }
    }

    /// Takes the next answer of the progress subscription into account.
    pub fn observe(&mut self, next: Option<Progress>)
        ensures
            *final(self) == old(self).observed(next),
    {
        self.progress.observe(next);
    }
}

/// A read is let through only where the download has produced the byte to be read: it
/// is complete, or has passed the offset of the body, or has ended for good.
pub proof fn law_read_waits_for_download(body: StreamingDownload)
    ensures
        body.read_step() is ReadFile ==> body.seek is At && (body.progress.closed
            || body.progress.current.downloaded_bytes == body.progress.current.total_bytes
            || body.seek->At_0 < body.progress.current.downloaded_bytes),
        body.seek is At && !body.progress.closed && body.progress.current.downloaded_bytes
            != body.progress.current.total_bytes && body.progress.current.downloaded_bytes
            <= body.seek->At_0 ==> body.read_step() is AwaitProgress,
{
}

/// A waiting read is woken once for each answer of the subscription: an answer that
/// does not bring the download past the offset leaves the read waiting, and one that
/// does lets it through.
pub proof fn law_one_decision_per_update(body: StreamingDownload, next: Progress)
    requires
        body.read_step() is AwaitProgress,
    ensures
        body.observed(Some(next)).seek == body.seek,
        body.observed(Some(next)).read_step() is ReadFile <==> (next.downloaded_bytes
            == next.total_bytes || body.seek->At_0 < next.downloaded_bytes),
        body.observed(Some(next)).read_step() is AwaitProgress <==> !(next.downloaded_bytes
            == next.total_bytes || body.seek->At_0 < next.downloaded_bytes),
        body.observed(None).read_step() is ReadFile,
{
}

/// A seek ends where it was asked to go, or at the end of the file where that lies
/// beyond it; and the file is sought only once the download has reached that offset.
pub proof fn law_seek_lands_clamped(body: StreamingDownload, position: u64)
    requires
        body.seek is At,
    ensures
        ({
            let asked = body.seek_started(position);
            let (sought, step) = asked.seek_step();
            &&& asked.seek == Seek::SeekTo(body.clamped(position))
            &&& body.clamped(position) <= body.total_bytes
            &&& step is StartFileSeek <==> asked.progress.reachable(body.clamped(position))
            &&& step is StartFileSeek ==> step->StartFileSeek_0 == body.clamped(position)
                && sought.seek_finished().seek == Seek::At(body.clamped(position))
            &&& !(step is StartFileSeek) ==> step is AwaitProgress && sought == asked
        }),
{
}

} // verus!
