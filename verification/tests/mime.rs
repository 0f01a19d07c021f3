use hailsplay::mime::{from_extension, from_path, raw_from_ext};

#[test]
fn table_of_extensions() {
    for (ext, mime) in [
        ("aac", "audio/aac"),
        ("flac", "audio/x-flac"),
        ("gif", "image/gif"),
        ("jpg", "image/jpg"),
        ("m4a", "audio/mp4"),
        ("mka", "audio/x-matroska"),
        ("mp3", "audio/mpeg"),
        ("ogg", "audio/ogg"),
        ("opus", "audio/ogg"),
        ("png", "image/png"),
        ("wav", "audio/wav"),
        ("webm", "audio/webm"),
        ("webp", "image/webp"),
    ] {
        assert_eq!(raw_from_ext(ext), mime);
        assert_eq!(from_extension(ext), mime);
    }
}

#[test]
fn unknown_extensions_fall_back() {
    for ext in ["", "exe", "OPUS", "mp4", "jpeg", " png", "png "] {
        assert_eq!(raw_from_ext(ext), "application/octet-stream", "{:?}", ext);
    }
}

#[test]
fn every_type_in_the_table_is_a_media_type() {
    for ext in ["aac", "flac", "gif", "jpg", "m4a", "mka", "mp3", "ogg", "opus", "png", "wav", "webm", "webp", "zzz"] {
        assert!(raw_from_ext(ext).parse::<mime::Mime>().is_ok());
    }
}

#[test]
fn type_by_path() {
    assert_eq!(from_path("v1.opus"), "audio/ogg");
    assert_eq!(from_path("/work/8e0a/v1.opus"), "audio/ogg");
    assert_eq!(from_path("/work/dir.mp3/cover.png"), "image/png");
    assert_eq!(from_path("a.b.c.webm"), "audio/webm");
    assert_eq!(from_path("Title [id].m4a"), "audio/mp4");
}

#[test]
fn paths_without_extension_fall_back() {
    for path in ["", "v1", "/work/v1", ".opus", "/work/.opus", "dir.opus/", "dir.opus/file", "..", "/a/..", "foo.", "a.OPUS"] {
        assert_eq!(from_path(path), "application/octet-stream", "{:?}", path);
    }
}

#[test]
fn hidden_file_with_extension() {
    assert_eq!(from_path(".hidden.png"), "image/png");
    assert_eq!(from_path("..png"), "image/png");
}
