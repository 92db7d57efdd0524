use vstd::prelude::*;
use vstd::utf8::encode_utf8;
use vstd::string::StringSliceAdditionalSpecFns;
use crate::text::{bytes_equal, to_ascii_lower, ascii_lower, extension_of, path_extension};

verus! {

/// The lower-case extensions of files that are taken to hold no text: images,
/// archives, executables, fonts, media, databases, logs, and lock, backup and
/// temporary files.
pub open spec fn binary_extension(e: Seq<u8>) -> bool {
        e == "exe".spec_bytes()
        || e == "dll".spec_bytes()
        || e == "bin".spec_bytes()
        || e == "obj".spec_bytes()
        || e == "so".spec_bytes()
        || e == "png".spec_bytes()
        || e == "jpg".spec_bytes()
        || e == "jpeg".spec_bytes()
        || e == "gif".spec_bytes()
        || e == "bmp".spec_bytes()
        || e == "ico".spec_bytes()
        || e == "icns".spec_bytes()
        || e == "svg".spec_bytes()
        || e == "pdf".spec_bytes()
        || e == "zip".spec_bytes()
        || e == "tar".spec_bytes()
        || e == "gz".spec_bytes()
        || e == "7z".spec_bytes()
        || e == "rar".spec_bytes()
        || e == "mp3".spec_bytes()
        || e == "mp4".spec_bytes()
        || e == "avi".spec_bytes()
        || e == "mov".spec_bytes()
        || e == "mkv".spec_bytes()
        || e == "wav".spec_bytes()
        || e == "ogg".spec_bytes()
        || e == "webm".spec_bytes()
        || e == "ttf".spec_bytes()
        || e == "otf".spec_bytes()
        || e == "woff".spec_bytes()
        || e == "woff2".spec_bytes()
        || e == "eot".spec_bytes()
        || e == "class".spec_bytes()
        || e == "jar".spec_bytes()
        || e == "pyc".spec_bytes()
        || e == "pyo".spec_bytes()
        || e == "apk".spec_bytes()
        || e == "dmg".spec_bytes()
        || e == "iso".spec_bytes()
        || e == "img".spec_bytes()
        || e == "msi".spec_bytes()
        || e == "cab".spec_bytes()
        || e == "sys".spec_bytes()
        || e == "dat".spec_bytes()
        || e == "db".spec_bytes()
        || e == "sqlite".spec_bytes()
        || e == "log".spec_bytes()
        || e == "tmp".spec_bytes()
        || e == "bak".spec_bytes()
        || e == "swp".spec_bytes()
        || e == "lock".spec_bytes()
}

/// A path whose extension, with ASCII letters lowered, names a binary kind.
pub open spec fn binary_path(p: Seq<char>) -> bool {
    match extension_of(p) {
        Some(e) => binary_extension(ascii_lower(encode_utf8(e))),
        None => false,
    }
}

/// Whether the lower-case extension `e` names a binary kind.
pub fn is_binary_extension(e: &[u8]) -> (r: bool)
    ensures
        r == binary_extension(e@),
{
        bytes_equal(e, "exe".as_bytes())
        || bytes_equal(e, "dll".as_bytes())
        || bytes_equal(e, "bin".as_bytes())
        || bytes_equal(e, "obj".as_bytes())
        || bytes_equal(e, "so".as_bytes())
        || bytes_equal(e, "png".as_bytes())
        || bytes_equal(e, "jpg".as_bytes())
        || bytes_equal(e, "jpeg".as_bytes())
        || bytes_equal(e, "gif".as_bytes())
        || bytes_equal(e, "bmp".as_bytes())
        || bytes_equal(e, "ico".as_bytes())
        || bytes_equal(e, "icns".as_bytes())
        || bytes_equal(e, "svg".as_bytes())
        || bytes_equal(e, "pdf".as_bytes())
        || bytes_equal(e, "zip".as_bytes())
        || bytes_equal(e, "tar".as_bytes())
        || bytes_equal(e, "gz".as_bytes())
        || bytes_equal(e, "7z".as_bytes())
        || bytes_equal(e, "rar".as_bytes())
        || bytes_equal(e, "mp3".as_bytes())
        || bytes_equal(e, "mp4".as_bytes())
        || bytes_equal(e, "avi".as_bytes())
        || bytes_equal(e, "mov".as_bytes())
        || bytes_equal(e, "mkv".as_bytes())
        || bytes_equal(e, "wav".as_bytes())
        || bytes_equal(e, "ogg".as_bytes())
        || bytes_equal(e, "webm".as_bytes())
        || bytes_equal(e, "ttf".as_bytes())
        || bytes_equal(e, "otf".as_bytes())
        || bytes_equal(e, "woff".as_bytes())
        || bytes_equal(e, "woff2".as_bytes())
        || bytes_equal(e, "eot".as_bytes())
        || bytes_equal(e, "class".as_bytes())
        || bytes_equal(e, "jar".as_bytes())
        || bytes_equal(e, "pyc".as_bytes())
        || bytes_equal(e, "pyo".as_bytes())
        || bytes_equal(e, "apk".as_bytes())
        || bytes_equal(e, "dmg".as_bytes())
        || bytes_equal(e, "iso".as_bytes())
        || bytes_equal(e, "img".as_bytes())
        || bytes_equal(e, "msi".as_bytes())
        || bytes_equal(e, "cab".as_bytes())
        || bytes_equal(e, "sys".as_bytes())
        || bytes_equal(e, "dat".as_bytes())
        || bytes_equal(e, "db".as_bytes())
        || bytes_equal(e, "sqlite".as_bytes())
        || bytes_equal(e, "log".as_bytes())
        || bytes_equal(e, "tmp".as_bytes())
        || bytes_equal(e, "bak".as_bytes())
        || bytes_equal(e, "swp".as_bytes())
        || bytes_equal(e, "lock".as_bytes())
}

/// Whether the file at `path` is skipped as binary, by its extension alone and
/// whatever its case; the file itself is never read.
pub fn is_binary_ext(path: &str) -> (r: bool)
    ensures
        r == binary_path(path@),
{
    match path_extension(path) {
        Some(e) => {
            let lowered = to_ascii_lower(e.as_str().as_bytes());
            is_binary_extension(lowered.as_slice())
        },
        None => false,
    }
}

/// Whether an entry of the walk is opened and scanned: only a regular file
/// that is not binary by its extension, and only while no cancellation has
/// been asked for.
pub open spec fn scans_entry(cancelled: bool, is_file: bool, path: Seq<char>) -> bool {
    !cancelled && is_file && !binary_path(path)
}

/// Decides whether an entry of the walk is opened and scanned.
pub fn should_scan(cancelled: bool, is_file: bool, path: &str) -> (r: bool)
    ensures
        r == scans_entry(cancelled, is_file, path@),
{
    if cancelled || !is_file {
        false
    } else {
        !is_binary_ext(path)
    }
}

} // verus!
