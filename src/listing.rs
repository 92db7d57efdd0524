use vstd::prelude::*;
use crate::filter::{binary_path, is_binary_ext};
use crate::text::{extension_of, path_extension, strip_bom, trim_bom};

verus! {

/// One entry of a directory listing.
pub struct FileInfo {
    /// The entry's file name.
    pub name: String,
    /// `"file"` or `"directory"`.
    pub kind: String,
    /// The listed directory's path and the file name, joined by one `/`.
    pub path: String,
}

/// `s` with every trailing `/` removed.
pub open spec fn strip_slashes(s: Seq<char>) -> Seq<char>
    decreases s.len(),
{
    if s.len() > 0 && s.last() == '/' {
        strip_slashes(s.drop_last())
    } else {
        s
    }
}

/// Relies on `str::trim_end_matches` with a `char` pattern: every trailing `/`
/// is removed and the rest kept.
#[verifier::external_body]
fn trim_slashes(s: &str) -> (r: String)
    ensures
        r@ == strip_slashes(s@),
{
    s.trim_end_matches('/').to_string()
}

/// The path of an entry named `name` in the directory `base`.
pub open spec fn joined_path(base: Seq<char>, name: Seq<char>) -> Seq<char> {
    strip_slashes(base) + seq!['/'] + name
}

/// The kind of an entry as the listing names it.
pub open spec fn kind_name(is_dir: bool) -> Seq<char> {
    if is_dir {
        seq!['d', 'i', 'r', 'e', 'c', 't', 'o', 'r', 'y']
    } else {
        seq!['f', 'i', 'l', 'e']
    }
}

/// The listing's record of the entry `name` of the directory `base`, found at
/// `entry_path`: none for a file that is binary by its extension.
pub fn listing_entry(base: &str, name: &str, entry_path: &str, is_dir: bool) -> (r: Option<
    FileInfo,
>)
    ensures
        match r {
            Some(info) => {
                &&& !(!is_dir && binary_path(entry_path@))
                &&& info.name@ == name@
                &&& info.kind@ == kind_name(is_dir)
                &&& info.path@ == joined_path(base@, name@)
            },
            None => !is_dir && binary_path(entry_path@),
        },
{
    if !is_dir && is_binary_ext(entry_path) {
        return None;
    }
    let mut kind = String::new();
    if is_dir {
        kind.append("directory");
        proof {
            reveal_strlit("directory");
        }
        assert(kind@ =~= kind_name(is_dir));
    } else {
        kind.append("file");
        proof {
            reveal_strlit("file");
        }
        assert(kind@ =~= kind_name(is_dir));
    }
    let mut path = trim_slashes(base);
    path.append("/");
    path.append(name);
    proof {
        reveal_strlit("/");
    }
    assert(path@ =~= joined_path(base@, name@));
    Some(FileInfo { name: name.to_owned(), kind, path })
}

/// The text shown for a file: its contents without leading byte-order marks,
/// or a notice when the file could not be read as UTF-8 (`None`).
pub fn file_text(contents: Option<String>) -> (r: String)
    ensures
        match contents {
            Some(c) => r@ == strip_bom(c@),
            None => r@ == unreadable_notice(),
        },
{
    match contents {
        Some(c) => trim_bom(c.as_str()),
        None => {
            let mut r = String::new();
            r.append("[Error: Could not read file as UTF-8]");
            proof {
                reveal_strlit("[Error: Could not read file as UTF-8]");
            }
            r
        },
    }
}

/// The text shown for a file that could not be read as UTF-8.
pub open spec fn unreadable_notice() -> Seq<char> {
    "[Error: Could not read file as UTF-8]"@
}

/// Whether the path names an extension script: its extension is exactly `js`.
pub fn is_extension_script(path: &str) -> (r: bool)
    ensures
        r == (extension_of(path@) == Some(seq!['j', 's'])),
{
    match path_extension(path) {
        Some(e) => {
            proof {
                reveal_strlit("js");
            }
            let js = "js".to_owned();
            let same = e == js;
            assert("js"@ =~= seq!['j', 's']);
            same
        },
        None => false,
    }
}

} // verus!
