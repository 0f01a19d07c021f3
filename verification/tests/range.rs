use hailsplay::range::{resolve, ByteRange, RangeNotSatisfiable, Window};

#[test]
fn whole_body_without_range() {
    let w = resolve(None, 1000).unwrap();
    assert_eq!(w, Window { start: 0, length: 1000, partial: false });
    assert_eq!(w.status(), 200);
    assert_eq!(w.content_range(1000), None);
}

#[test]
fn span_inside_the_body() {
    let w = resolve(Some(ByteRange::Span(500, 599)), 1000).unwrap();
    assert_eq!(w, Window { start: 500, length: 100, partial: true });
    assert_eq!(w.status(), 206);
    assert_eq!(w.content_range(1000).as_deref(), Some("bytes 500-599/1000"));
}

#[test]
fn span_of_one_byte() {
    assert_eq!(
        resolve(Some(ByteRange::Span(30, 30)), 54),
        Ok(Window { start: 30, length: 1, partial: true })
    );
    assert_eq!(
        resolve(Some(ByteRange::Span(0, 0)), 1),
        Ok(Window { start: 0, length: 1, partial: true })
    );
    assert_eq!(
        resolve(Some(ByteRange::Span(999, 999)), 1000),
        Ok(Window { start: 999, length: 1, partial: true })
    );
}

#[test]
fn span_of_the_whole_body_is_partial() {
    let w = resolve(Some(ByteRange::Span(0, 999)), 1000).unwrap();
    assert_eq!(w, Window { start: 0, length: 1000, partial: true });
    assert_eq!(w.content_range(1000).as_deref(), Some("bytes 0-999/1000"));
}

#[test]
fn open_range() {
    let w = resolve(Some(ByteRange::From(40)), 54).unwrap();
    assert_eq!(w, Window { start: 40, length: 14, partial: true });
    assert_eq!(w.content_range(54).as_deref(), Some("bytes 40-53/54"));
    assert_eq!(
        resolve(Some(ByteRange::From(0)), 54),
        Ok(Window { start: 0, length: 54, partial: true })
    );
}

#[test]
fn unsatisfiable_range() {
    // 1000 bytes in all, bytes from 2000 on asked for
    let refused = resolve(Some(ByteRange::From(2000)), 1000).unwrap_err();
    assert_eq!(refused, RangeNotSatisfiable { size: 1000 });
    assert_eq!(refused.status(), 416);
    assert_eq!(refused.content_range(), "bytes */1000");
}

#[test]
fn range_that_starts_at_the_end_is_refused() {
    assert_eq!(resolve(Some(ByteRange::From(1000)), 1000), Err(RangeNotSatisfiable { size: 1000 }));
    assert_eq!(
        resolve(Some(ByteRange::Span(1000, 1000)), 1000),
        Err(RangeNotSatisfiable { size: 1000 })
    );
    assert_eq!(
        resolve(Some(ByteRange::Span(1000, 2000)), 1000),
        Err(RangeNotSatisfiable { size: 1000 })
    );
    assert_eq!(
        resolve(Some(ByteRange::Span(u64::MAX, u64::MAX)), u64::MAX),
        Err(RangeNotSatisfiable { size: u64::MAX })
    );
}

#[test]
fn range_that_ends_beyond_the_body_is_clamped() {
    let w = resolve(Some(ByteRange::Span(30, 99)), 54).unwrap();
    assert_eq!(w, Window { start: 30, length: 24, partial: true });
    assert_eq!(w.content_range(54).as_deref(), Some("bytes 30-53/54"));
    assert_eq!(
        resolve(Some(ByteRange::Span(0, 54)), 54),
        Ok(Window { start: 0, length: 54, partial: true })
    );
    assert_eq!(
        resolve(Some(ByteRange::Span(53, u64::MAX)), 54),
        Ok(Window { start: 53, length: 1, partial: true })
    );
    assert_eq!(
        resolve(Some(ByteRange::Span(0, u64::MAX)), u64::MAX),
        Ok(Window { start: 0, length: u64::MAX, partial: true })
    );
}

#[test]
fn range_that_ends_before_it_starts_is_refused() {
    assert_eq!(resolve(Some(ByteRange::Span(30, 29)), 54), Err(RangeNotSatisfiable { size: 54 }));
    assert_eq!(resolve(Some(ByteRange::Span(30, 0)), 54), Err(RangeNotSatisfiable { size: 54 }));
}

#[test]
fn suffix_is_the_last_bytes() {
    let w = resolve(Some(ByteRange::Suffix(20)), 54).unwrap();
    assert_eq!(w, Window { start: 34, length: 20, partial: true });
    assert_eq!(w.content_range(54).as_deref(), Some("bytes 34-53/54"));
    assert_eq!(
        resolve(Some(ByteRange::Suffix(1)), 54),
        Ok(Window { start: 53, length: 1, partial: true })
    );
    assert_eq!(
        resolve(Some(ByteRange::Suffix(54)), 54),
        Ok(Window { start: 0, length: 54, partial: true })
    );
    assert_eq!(
        resolve(Some(ByteRange::Suffix(100)), 1000),
        Ok(Window { start: 900, length: 100, partial: true })
    );
}

#[test]
fn suffix_longer_than_the_body_is_the_whole_body() {
    assert_eq!(
        resolve(Some(ByteRange::Suffix(55)), 54),
        Ok(Window { start: 0, length: 54, partial: true })
    );
    assert_eq!(
        resolve(Some(ByteRange::Suffix(u64::MAX)), 54),
        Ok(Window { start: 0, length: 54, partial: true })
    );
}

#[test]
fn suffix_of_no_bytes_is_refused() {
    assert_eq!(resolve(Some(ByteRange::Suffix(0)), 54), Err(RangeNotSatisfiable { size: 54 }));
    assert_eq!(resolve(Some(ByteRange::Suffix(0)), 0), Err(RangeNotSatisfiable { size: 0 }));
}

#[test]
fn empty_body() {
    let w = resolve(None, 0).unwrap();
    assert_eq!(w, Window { start: 0, length: 0, partial: false });
    assert_eq!(w.status(), 200);
    assert_eq!(resolve(Some(ByteRange::Suffix(5)), 0), Ok(Window { start: 0, length: 0, partial: false }));
    assert_eq!(resolve(Some(ByteRange::From(0)), 0), Err(RangeNotSatisfiable { size: 0 }));
    assert_eq!(resolve(Some(ByteRange::Span(0, 0)), 0), Err(RangeNotSatisfiable { size: 0 }));
}

#[test]
fn large_bodies() {
    assert_eq!(
        resolve(None, u64::MAX),
        Ok(Window { start: 0, length: u64::MAX, partial: false })
    );
    let w = resolve(Some(ByteRange::Span(1, u64::MAX - 1)), u64::MAX).unwrap();
    assert_eq!(w, Window { start: 1, length: u64::MAX - 1, partial: true });
    assert_eq!(
        w.content_range(u64::MAX).as_deref(),
        Some("bytes 1-18446744073709551614/18446744073709551615")
    );
}

#[test]
fn served_window_of_a_file() {
    let file: Vec<u8> = (0..=255u8).collect();
    for (first, last) in [(0u64, 0u64), (0, 255), (10, 20), (255, 255), (100, 254)] {
        let w = resolve(Some(ByteRange::Span(first, last)), file.len() as u64).unwrap();
        let served = &file[w.start as usize..(w.start + w.length) as usize];
        assert_eq!(served, &file[first as usize..=last as usize]);
    }
    let w = resolve(Some(ByteRange::Suffix(16)), file.len() as u64).unwrap();
    assert_eq!(&file[w.start as usize..(w.start + w.length) as usize], &file[240..]);
}

#[test]
fn content_range_of_odd_windows() {
    assert_eq!(Window { start: 0, length: 0, partial: true }.content_range(10), None);
    assert_eq!(Window { start: 2, length: u64::MAX, partial: true }.content_range(10), None);
    assert_eq!(
        Window { start: 0, length: 1, partial: true }.content_range(0).as_deref(),
        Some("bytes 0-0/0")
    );
}

fn expected(range: Option<ByteRange>, total: u64) -> Result<Window, RangeNotSatisfiable> {
    let refused = Err(RangeNotSatisfiable { size: total });
    let part = |start: u64, end: u64| Ok(Window { start, length: end - start, partial: true });
    match range {
        None => Ok(Window { start: 0, length: total, partial: false }),
        Some(ByteRange::Span(first, last)) => {
            if first > last || first >= total {
                refused
            } else {
                part(first, if last >= total { total } else { last + 1 })
            }
        }
        Some(ByteRange::From(first)) => {
            if first >= total {
                refused
            } else {
                part(first, total)
            }
        }
        Some(ByteRange::Suffix(n)) => {
            if n == 0 {
                refused
            } else if total == 0 {
                Ok(Window { start: 0, length: 0, partial: false })
            } else {
                part(total.saturating_sub(n), total)
            }
        }
    }
}

#[test]
fn every_small_range_over_every_small_body() {
    let edge = [0u64, 1, 2, 3, 4, 5, 6, 7, u64::MAX - 1, u64::MAX];
    for total in [0u64, 1, 2, 3, 5, 6, u64::MAX - 1, u64::MAX] {
        assert_eq!(resolve(None, total), expected(None, total));
        for a in edge {
            for range in [ByteRange::From(a), ByteRange::Suffix(a)] {
                assert_eq!(resolve(Some(range), total), expected(Some(range), total), "{:?} {}", range, total);
            }
            for b in edge {
                let range = ByteRange::Span(a, b);
                assert_eq!(resolve(Some(range), total), expected(Some(range), total), "{:?} {}", range, total);
            }
        }
    }
}
