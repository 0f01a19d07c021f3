//! Byte ranges: which part of a body of known size a request for a range is answered
//! with, and the headers that say so.
//!
//! A range is read as HTTP/1.1 reads it. The answer is made by `axum_range::Ranged`, the
//! responder that serves the bodies of this server; where that responder departs from
//! HTTP/1.1, the range is put into a form that it answers as HTTP/1.1 asks.

use crate::text::{decimal_digits, push_decimal, push_str, string_of};
use vstd::prelude::*;

verus! {

/// The first range of a `Range` header in bytes.
#[derive(Clone, Copy, Debug, PartialEq, Eq, Structural)]
pub enum ByteRange {
    /// `bytes=<first>-<last>`: the offsets from `first` to `last`, both included.
    Span(u64, u64),
    /// `bytes=<first>-`: the offsets from `first` to the end.
    From(u64),
    /// `bytes=-<n>`: the last `n` bytes.
    Suffix(u64),
}

/// The part of a body that a response carries.
#[derive(Clone, Copy, Debug, PartialEq, Eq, Structural)]
pub struct Window {
    /// The offset of the first byte.
    pub start: u64,
    /// The number of bytes.
    pub length: u64,
    /// Whether the response is partial (status 206 with a `Content-Range`) or carries
    /// the body as a whole (status 200).
    pub partial: bool,
}

/// A range that a body cannot answer: the response has status 416 and says the size of
/// the body.
#[derive(Clone, Copy, Debug, PartialEq, Eq, Structural)]
pub struct RangeNotSatisfiable {
    pub size: u64,
}

/// The body of `total` bytes as a whole.
pub open spec fn whole(total: u64) -> Window {
    Window { start: 0, length: total, partial: false }
}

/// The part of a body of `total` bytes that answers `range` under HTTP/1.1, or `None`
/// where the range cannot be answered.
///
/// - No range is answered with the body as a whole.
/// - A range from `first` cannot be answered where `first` lies at or beyond the end,
///   nor where its last offset lies before `first`. A last offset beyond the end
///   stands for the end.
/// - A range of the last `n` bytes cannot be answered where `n` is 0. Where the body
///   has fewer than `n` bytes it is answered with the whole body, as a part where the
///   body has bytes at all.
pub open spec fn window(range: Option<ByteRange>, total: u64) -> Option<Window> {
    match range {
        None => Some(whole(total)),
        Some(ByteRange::Span(first, last)) => if first > last || first >= total {
            None
        } else {
            let end = if last < total {
                last + 1
            } else {
                total as int
            };
            Some(Window { start: first, length: (end - first) as u64, partial: true })
        },
        Some(ByteRange::From(first)) => if first >= total {
            None
        } else {
            Some(Window { start: first, length: (total - first) as u64, partial: true })
        },
        Some(ByteRange::Suffix(n)) => if n == 0 {
            None
        } else if total == 0 {
            Some(whole(total))
        } else if n < total {
            Some(Window { start: (total - n) as u64, length: n, partial: true })
        } else {
            Some(Window { start: 0, length: total, partial: true })
        },
    }
}

/// What `axum_range::Ranged` answers over a body of `total` bytes. `asked` is the
/// range of the request, if it has one: its first offset and, where it names one, its
/// last. The answer starts at the first offset, or at 0 without a range, and ends after
/// the last offset, or at the end of the body where none is named. A range that is
/// empty or ends beyond the body is refused, and so is every request for an empty body.
pub open spec fn answered(asked: Option<(u64, Option<u64>)>, total: u64) -> Option<Window> {
    let start: int = match asked {
        Some((first, _)) => first as int,
        None => 0,
    };
    let end: int = match asked {
        Some((_, Some(last))) => last + 1,
        _ => total as int,
    };
    if start >= end || end > total {
        None
    } else {
        Some(Window { start: start as u64, length: (end - start) as u64, partial: asked is Some })
    }
}

/// `axum_range::Ranged::try_respond` answers a `Range` header over a body of known
/// size, as `answered` says. It refuses with the size of the body; else it gives the
/// inclusive range of the answer, where a header was given, and the length of the
/// answer.
#[verifier::external_body]
fn respond(asked: Option<(u64, Option<u64>)>, total: u64) -> (r: Result<
    (Option<(u64, u64)>, u64),
    Option<u64>,
>)
    requires
        asked matches Some((_, Some(last))) ==> last < u64::MAX,
    ensures
        match answered(asked, total) {
            Some(w) => r == Ok::<(Option<(u64, u64)>, u64), Option<u64>>(
                (
                    if w.partial {
                        Some((w.start, (w.start + w.length - 1) as u64))
                    } else {
                        None
                    },
                    w.length,
                ),
            ),
            None => r == Err::<(Option<(u64, u64)>, u64), Option<u64>>(Some(total)),
        },
{
    let header = asked.and_then(|(first, last)| match last {
        Some(last) => headers::Range::bytes(first..=last).ok(),
        None => headers::Range::bytes(first..).ok(),
    });
    let body = axum_range::KnownSize::sized(std::io::Cursor::new(Vec::<u8>::new()), total);
    match axum_range::Ranged::new(header, body).try_respond() {
        Ok(ok) => Ok((ok.content_range.and_then(|c| c.bytes_range()), ok.content_length.0)),
        Err(refused) => Err(refused.0.bytes_len()),
    }
}

/// Answers a request for `range` over a body of `total` bytes, as HTTP/1.1 asks.
pub fn resolve(range: Option<ByteRange>, total: u64) -> (r: Result<Window, RangeNotSatisfiable>)
    ensures
        match window(range, total) {
            Some(w) => r == Ok::<Window, RangeNotSatisfiable>(w),
            None => r == Err::<Window, RangeNotSatisfiable>(RangeNotSatisfiable { size: total }),
        },
{
    // the range in the form that the responder answers as HTTP/1.1 asks
    let asked: Option<(u64, Option<u64>)> = match range {
        None => {
            if total == 0 {
                return Ok(Window { start: 0, length: 0, partial: false });
            }
            None
        },
        Some(ByteRange::Span(first, last)) => {
            if first > last || first >= total {
                return Err(RangeNotSatisfiable { size: total });
            }
            let last = if last < total {
                last
            } else {
                total - 1
            };
            Some((first, Some(last)))
        },
        Some(ByteRange::From(first)) => Some((first, None)),
        Some(ByteRange::Suffix(n)) => {
            if n == 0 {
                return Err(RangeNotSatisfiable { size: total });
            }
            if total == 0 {
                return Ok(Window { start: 0, length: 0, partial: false });
            }
            if n < total {
                Some((total - n, None))
            } else {
                Some((0, None))
            }
        },
    };
    match respond(asked, total) {
        Ok((Some((first, _)), length)) => Ok(Window { start: first, length, partial: true }),
        Ok((None, length)) => Ok(Window { start: 0, length, partial: false }),
        Err(_) => Err(RangeNotSatisfiable { size: total }),
    }
}

/// The bytes that a response with the window `w` carries of the body `file`.
pub open spec fn served(file: Seq<u8>, w: Window) -> Seq<u8> {
    file.subrange(w.start as int, w.start + w.length)
}

/// Ranges are answered exactly: a range from `first` to `last` that lies inside the
/// body is answered with the bytes from `first` to `last`, both included; one that
/// starts inside the body and ends beyond it, or names no end, with the bytes from
/// `first` on; and one that starts at or beyond the end of the body cannot be answered.
pub proof fn law_range_correct(file: Seq<u8>, first: u64, last: u64)
    requires
        file.len() <= u64::MAX,
    ensures
        first <= last < file.len() ==> window(
            Some(ByteRange::Span(first, last)),
            file.len() as u64,
        ) is Some && window(Some(ByteRange::Span(first, last)), file.len() as u64)->0.partial
            && served(file, window(Some(ByteRange::Span(first, last)), file.len() as u64)->0)
            == file.subrange(first as int, last + 1),
        first < file.len() <= last ==> window(
            Some(ByteRange::Span(first, last)),
            file.len() as u64,
        ) is Some && served(
            file,
            window(Some(ByteRange::Span(first, last)), file.len() as u64)->0,
        ) == file.skip(first as int),
        first >= file.len() ==> window(Some(ByteRange::Span(first, last)), file.len() as u64)
            is None && window(Some(ByteRange::From(first)), file.len() as u64) is None,
        first < file.len() ==> window(Some(ByteRange::From(first)), file.len() as u64) is Some
            && served(file, window(Some(ByteRange::From(first)), file.len() as u64)->0)
            == file.skip(first as int),
        window(None, file.len() as u64) is Some && served(
            file,
            window(None, file.len() as u64)->0,
        ) == file,
{
    if first < file.len() {
        assert(file.subrange(first as int, file.len() as int) == file.skip(first as int));
    }
    assert(file.subrange(0, file.len() as int) == file);
}

/// A range of the last `n` bytes is answered with the last `n` bytes of the body, or
/// with the whole body where it has no more than `n` bytes; a range of the last 0 bytes
/// cannot be answered.
pub proof fn law_suffix_correct(file: Seq<u8>, n: u64)
    requires
        file.len() <= u64::MAX,
    ensures
        n == 0 ==> window(Some(ByteRange::Suffix(n)), file.len() as u64) is None,
        0 < n <= file.len() ==> window(Some(ByteRange::Suffix(n)), file.len() as u64) is Some
            && served(file, window(Some(ByteRange::Suffix(n)), file.len() as u64)->0)
            == file.skip(file.len() - n),
        n > file.len() ==> window(Some(ByteRange::Suffix(n)), file.len() as u64) is Some
            && served(file, window(Some(ByteRange::Suffix(n)), file.len() as u64)->0) == file,
{
    if 0 < n <= file.len() {
        assert(file.subrange(file.len() - n, file.len() as int) == file.skip(file.len() - n));
    }
    assert(file.subrange(0, file.len() as int) == file);
}

/// The `Content-Range` of a partial response: `bytes <first>-<last>/<size>`.
pub open spec fn content_range_text(w: Window, size: u64) -> Seq<char> {
    "bytes "@ + decimal_digits(w.start as nat) + "-"@ + decimal_digits(
        (w.start + w.length - 1) as nat,
    ) + "/"@ + decimal_digits(size as nat)
}

/// The `Content-Range` of a response to a range that cannot be answered:
/// `bytes */<size>`.
pub open spec fn unsatisfied_text(size: u64) -> Seq<char> {
    "bytes */"@ + decimal_digits(size as nat)
}

impl Window {
    /// The status of the response: 206 where it is partial, else 200.
    pub fn status(&self) -> (code: u16)
        ensures
            code == if self.partial {
                206u16
            } else {
                200u16
            },
    {
        if self.partial {
            206
        } else {
            200
        }
    }

    /// The `Content-Range` of the response, where it is partial and not empty.
    pub fn content_range(&self, size: u64) -> (header: Option<String>)
        ensures
            header is Some <==> self.partial && self.length > 0 && self.start + self.length - 1
                <= u64::MAX,
            header is Some ==> header->0@ == content_range_text(*self, size),
    {
        if !self.partial || self.length == 0 || self.length - 1 > u64::MAX - self.start {
            return None;
        }
        let mut out: Vec<char> = Vec::new();
        push_str(&mut out, "bytes ");
        push_decimal(&mut out, self.start);
        push_str(&mut out, "-");
        push_decimal(&mut out, self.start + (self.length - 1));
        push_str(&mut out, "/");
        push_decimal(&mut out, size);
        assert(out@ =~= content_range_text(*self, size));
        Some(string_of(&out))
    }
}

impl RangeNotSatisfiable {
    /// The status of the response: 416.
    pub fn status(&self) -> (code: u16)
        ensures
            code == 416,
    {
        416
    }

    /// The `Content-Range` of the response.
    pub fn content_range(&self) -> (header: String)
        ensures
            header@ == unsatisfied_text(self.size),
    {
        let mut out: Vec<char> = Vec::new();
        push_str(&mut out, "bytes */");
        push_decimal(&mut out, self.size);
        assert(out@ =~= unsatisfied_text(self.size));
        string_of(&out)
    }
}

} // verus!
