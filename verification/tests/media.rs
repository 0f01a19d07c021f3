use hailsplay::media::{BodyError, PollProgress, ReadStep, Seek, SeekStep, StreamingDownload};
use hailsplay::ytdlp::Progress;

fn progress(downloaded_bytes: u64, total_bytes: u64) -> Progress {
    Progress { downloaded_bytes, total_bytes }
}

#[test]
fn body_starts_at_the_beginning() {
    let body = StreamingDownload::new(progress(300, 1000));
    assert_eq!(body.seek, Seek::At(0));
    assert_eq!(body.byte_size(), 1000);
    assert_eq!(body.position(), 0);
    assert_eq!(body.progress, PollProgress { current: progress(300, 1000), closed: false });
}

#[test]
fn byte_size_is_fixed_when_the_body_is_made() {
    let mut body = StreamingDownload::new(progress(0, 1000));
    body.observe(Some(progress(10, 2000)));
    assert_eq!(body.byte_size(), 1000);
    body.observe(None);
    assert_eq!(body.byte_size(), 1000);
}

#[test]
fn seek_is_clamped_to_the_size() {
    let mut body = StreamingDownload::new(progress(1000, 1000));
    assert_eq!(body.start_seek(2000), Ok(()));
    assert_eq!(body.seek, Seek::SeekTo(1000));
    let mut body = StreamingDownload::new(progress(1000, 1000));
    assert_eq!(body.start_seek(1000), Ok(()));
    assert_eq!(body.seek, Seek::SeekTo(1000));
    let mut body = StreamingDownload::new(progress(1000, 1000));
    assert_eq!(body.start_seek(999), Ok(()));
    assert_eq!(body.seek, Seek::SeekTo(999));
}

#[test]
fn seek_must_not_start_while_seeking() {
    let mut body = StreamingDownload::new(progress(1000, 1000));
    assert_eq!(body.start_seek(5), Ok(()));
    assert_eq!(body.start_seek(7), Err(BodyError::AlreadySeeking));
    assert_eq!(body.seek, Seek::SeekTo(5));
    assert_eq!(body.poll_complete(), SeekStep::StartFileSeek(5));
    assert_eq!(body.start_seek(7), Err(BodyError::AlreadySeeking));
    assert_eq!(body.seek, Seek::Seeking(5));
}

#[test]
fn poll_complete_without_seek_is_a_misuse() {
    let mut body = StreamingDownload::new(progress(0, 10));
    assert_eq!(body.poll_complete(), SeekStep::Fail(BodyError::NotSeeking));
    assert_eq!(body.seek, Seek::At(0));
}

#[test]
fn read_while_seeking_is_a_misuse() {
    let mut body = StreamingDownload::new(progress(10, 10));
    body.start_seek(3).unwrap();
    assert_eq!(body.poll_read(), ReadStep::Fail(BodyError::ReadWhileSeeking));
    assert_eq!(body.poll_complete(), SeekStep::StartFileSeek(3));
    assert_eq!(body.poll_read(), ReadStep::Fail(BodyError::ReadWhileSeeking));
    assert_eq!(body.poll_complete(), SeekStep::AwaitFile);
    body.seek_done();
    assert_eq!(body.seek, Seek::At(3));
    assert_eq!(body.poll_read(), ReadStep::ReadFile);
}

#[test]
fn seek_waits_until_the_download_reaches_the_offset() {
    let mut body = StreamingDownload::new(progress(300, 1000));
    body.start_seek(500).unwrap();
    assert_eq!(body.poll_complete(), SeekStep::AwaitProgress);
    assert_eq!(body.seek, Seek::SeekTo(500));
    body.observe(Some(progress(499, 1000)));
    assert_eq!(body.poll_complete(), SeekStep::AwaitProgress);
    body.observe(Some(progress(500, 1000)));
    assert_eq!(body.poll_complete(), SeekStep::StartFileSeek(500));
    assert_eq!(body.seek, Seek::Seeking(500));
    assert_eq!(body.poll_complete(), SeekStep::AwaitFile);
    body.seek_done();
    assert_eq!(body.seek, Seek::At(500));
}

#[test]
fn range_during_download() {
    // 1000 bytes in all, 300 downloaded, bytes 500 to 599 asked for
    let mut body = StreamingDownload::new(progress(300, 1000));
    body.start_seek(500).unwrap();
    assert_eq!(body.poll_complete(), SeekStep::AwaitProgress);
    body.observe(Some(progress(520, 1000)));
    assert_eq!(body.poll_complete(), SeekStep::StartFileSeek(500));
    body.seek_done();
    assert_eq!(body.poll_read(), ReadStep::ReadFile);
    body.read_done(20);
    assert_eq!(body.seek, Seek::At(520));
    // nothing is read before the download has passed the offset
    assert_eq!(body.poll_read(), ReadStep::AwaitProgress);
    body.observe(Some(progress(520, 1000)));
    assert_eq!(body.poll_read(), ReadStep::AwaitProgress);
    body.observe(Some(progress(600, 1000)));
    assert_eq!(body.poll_read(), ReadStep::ReadFile);
    body.read_done(80);
    assert_eq!(body.seek, Seek::At(600));
    assert_eq!(body.position() - 500, 100);
}

#[test]
fn read_is_let_through_when_the_download_is_complete() {
    let mut body = StreamingDownload::new(progress(1000, 1000));
    body.read_done(1000);
    assert_eq!(body.seek, Seek::At(1000));
    assert_eq!(body.poll_read(), ReadStep::ReadFile);
}

#[test]
fn read_is_let_through_when_the_publisher_is_gone() {
    let mut body = StreamingDownload::new(progress(10, 1000));
    body.read_done(10);
    assert_eq!(body.poll_read(), ReadStep::AwaitProgress);
    body.observe(None);
    assert!(body.progress.closed);
    assert_eq!(body.progress.current, progress(10, 1000));
    assert_eq!(body.poll_read(), ReadStep::ReadFile);
    body.start_seek(900).unwrap();
    assert_eq!(body.poll_complete(), SeekStep::StartFileSeek(900));
}

#[test]
fn poll_progress_gates() {
    let p = PollProgress::new(progress(300, 1000));
    assert!(p.poll_ready(0));
    assert!(p.poll_ready(299));
    assert!(!p.poll_ready(300));
    assert!(!p.poll_ready(301));
    assert!(p.poll_reached(300));
    assert!(!p.poll_reached(301));
    let done = PollProgress::new(progress(1000, 1000));
    assert!(done.poll_ready(1000));
    assert!(done.poll_ready(5000));
    let mut closed = PollProgress::new(progress(1, 1000));
    closed.observe(None);
    assert!(closed.poll_ready(999));
    assert!(closed.poll_reached(999));
}

#[test]
fn read_done_moves_the_offset() {
    let mut body = StreamingDownload::new(progress(10, 10));
    body.read_done(0);
    assert_eq!(body.seek, Seek::At(0));
    body.read_done(4);
    body.read_done(6);
    assert_eq!(body.seek, Seek::At(10));
    assert!(body.try_read_done(u64::MAX - 10));
    assert_eq!(body.seek, Seek::At(u64::MAX));
    assert!(!body.try_read_done(1));
    assert_eq!(body.seek, Seek::At(u64::MAX));
}

#[test]
fn seek_done_without_seek_changes_nothing() {
    let mut body = StreamingDownload::new(progress(10, 10));
    body.seek_done();
    assert_eq!(body.seek, Seek::At(0));
    body.start_seek(1).unwrap();
    body.seek_done();
    assert_eq!(body.seek, Seek::SeekTo(1));
}

#[test]
fn misuse_messages() {
    assert_eq!(BodyError::AlreadySeeking.message(), "start seek while already seeking");
    assert_eq!(BodyError::NotSeeking.message(), "poll complete while not seeking");
    assert_eq!(BodyError::ReadWhileSeeking.message(), "read while seeking");
}
