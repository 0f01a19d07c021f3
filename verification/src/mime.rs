//! From the extension of a file name to its media type.

use crate::text::{chars_of, equals_str, last_index_of, lemma_last_index_of, rfind_char};
use vstd::prelude::*;

verus! {

/// The media type of content of unknown kind.
pub open spec fn fallback() -> Seq<char> {
    "application/octet-stream"@
}

/// The table from extension to media type. An extension that it does not hold has the
/// fallback type.
pub open spec fn type_of_extension(ext: Seq<char>) -> Seq<char> {
    if ext == "aac"@ {
        "audio/aac"@
    } else if ext == "flac"@ {
        "audio/x-flac"@
    } else if ext == "gif"@ {
        "image/gif"@
    } else if ext == "jpg"@ {
        "image/jpg"@
    } else if ext == "m4a"@ {
        "audio/mp4"@
    } else if ext == "mka"@ {
        "audio/x-matroska"@
    } else if ext == "mp3"@ {
        "audio/mpeg"@
    } else if ext == "ogg"@ {
        "audio/ogg"@
    } else if ext == "opus"@ {
        "audio/ogg"@
    } else if ext == "png"@ {
        "image/png"@
    } else if ext == "wav"@ {
        "audio/wav"@
    } else if ext == "webm"@ {
        "audio/webm"@
    } else if ext == "webp"@ {
        "image/webp"@
    } else {
        fallback()
    }
}

/// The media type for the extension held in `v`.
fn lookup(v: &Vec<char>) -> (mime: &'static str)
    ensures
        mime@ == type_of_extension(v@),
{
    if equals_str(v, "aac") {
        "audio/aac"
    } else if equals_str(v, "flac") {
        "audio/x-flac"
    } else if equals_str(v, "gif") {
        "image/gif"
    } else if equals_str(v, "jpg") {
        "image/jpg"
    } else if equals_str(v, "m4a") {
        "audio/mp4"
    } else if equals_str(v, "mka") {
        "audio/x-matroska"
    } else if equals_str(v, "mp3") {
        "audio/mpeg"
    } else if equals_str(v, "ogg") {
        "audio/ogg"
    } else if equals_str(v, "opus") {
        "audio/ogg"
    } else if equals_str(v, "png") {
        "image/png"
    } else if equals_str(v, "wav") {
        "audio/wav"
    } else if equals_str(v, "webm") {
        "audio/webm"
    } else if equals_str(v, "webp") {
        "image/webp"
    } else {
        "application/octet-stream"
    }
}

/// The media type for the extension `ext`, as text.
pub fn raw_from_ext(ext: &str) -> (mime: &'static str)
    ensures
        mime@ == type_of_extension(ext@),
{
    let v = chars_of(ext);
    lookup(&v)
}

/// The media type for the extension `ext`.
pub fn from_extension(ext: &str) -> (mime: &'static str)
    ensures
        mime@ == type_of_extension(ext@),
{
    raw_from_ext(ext)
}

/// The last component of `path`: what follows its last `/`.
pub open spec fn file_name_of(path: Seq<char>) -> Seq<char> {
    match last_index_of(path, '/') {
        Some(i) => path.skip(i + 1),
        None => path,
    }
}

/// The extension of `path`: what follows the last `.` of its last component. A
/// component without a `.`, one whose only `.` is its first character, and the
/// component `..` have none.
pub open spec fn extension_of(path: Seq<char>) -> Option<Seq<char>> {
    let name = file_name_of(path);
    match last_index_of(name, '.') {
        Some(i) => if i == 0 || name == seq!['.', '.'] {
            None
        } else {
            Some(name.skip(i + 1))
        },
        None => None,
    }
}

/// The media type of the file at `path`, by its extension.
pub open spec fn type_of_path(path: Seq<char>) -> Seq<char> {
    match extension_of(path) {
        Some(ext) => type_of_extension(ext),
        None => fallback(),
    }
}

/// The media type of the file at `path`, by its extension; the fallback type where it
/// has none.
pub fn from_path(path: &str) -> (mime: &'static str)
    ensures
        mime@ == type_of_path(path@),
{
    let p = chars_of(path);
    proof {
        lemma_last_index_of(p@, '/');
    }
    let start: usize = match rfind_char(&p, '/') {
        Some(i) => i + 1,
        None => 0,
    };
    let mut name: Vec<char> = Vec::new();
    let mut i: usize = start;
    while i < p.len()
        invariant
            start <= i <= p.len(),
            name@ == p@.subrange(start as int, i as int),
        decreases p.len() - i,
    {
        name.push(p[i]);
        assert(p@.subrange(start as int, i + 1) == p@.subrange(start as int, i as int).push(
            p@[i as int],
        ));
        i += 1;
    }
    assert(p@.subrange(start as int, p@.len() as int) == p@.skip(start as int));
    assert(p@.skip(0) == p@);
    assert(name@ == file_name_of(path@));
    proof {
        lemma_last_index_of(name@, '.');
    }
    match rfind_char(&name, '.') {
        None => "application/octet-stream",
        Some(dot) => {
            if dot == 0 || (name.len() == 2 && name[0] == '.' && name[1] == '.') {
                proof {
                    if dot != 0 {
                        assert(name@ =~= seq!['.', '.']);
                    }
                }
                "application/octet-stream"
            } else {
                proof {
                    if name@ == seq!['.', '.'] {
                        assert(name@.len() == 2);
                        assert(name@[0] == '.');
                        assert(name@[1] == '.');
                    }
                }
                let mut ext: Vec<char> = Vec::new();
                let mut j: usize = dot + 1;
                while j < name.len()
                    invariant
                        dot + 1 <= j <= name.len(),
                        ext@ == name@.subrange(dot + 1, j as int),
                    decreases name.len() - j,
                {
                    ext.push(name[j]);
                    assert(name@.subrange(dot + 1, j + 1) == name@.subrange(dot + 1, j as int).push(
                        name@[j as int],
                    ));
                    j += 1;
                }
                assert(name@.subrange(dot + 1, name@.len() as int) == name@.skip(dot + 1));
                lookup(&ext)
            }
        },
    }
}

} // verus!
