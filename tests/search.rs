use vesper_search::filter::{is_binary_ext, is_binary_extension, should_scan};
use vesper_search::listing::{file_text, is_extension_script, listing_entry};
use vesper_search::matcher::{match_offsets, occurs_at_exec};
use vesper_search::scan::{scan_file, scan_file_folded, scan_line, SearchMatch};
use vesper_search::search::gather;
use vesper_search::text::{bytes_equal, to_ascii_lower};

fn lines(v: &[&str]) -> Vec<Option<String>> {
    v.iter().map(|l| Some(l.to_string())).collect()
}

#[test]
fn empty_keyword_matches_nothing() {
    let r = scan_file("a.txt", &lines(&["abc", "", "xyz"]), "");
    assert!(r.is_empty());
    assert!(match_offsets(b"abc", b"").is_empty());
    assert!(scan_line("abc", "").is_empty());
}

#[test]
fn greedy_offsets_are_non_overlapping() {
    assert_eq!(match_offsets(b"abcabcab", b"ab"), vec![(0, 2), (3, 5), (6, 8)]);
    assert_eq!(match_offsets(b"aaa", b"aa"), vec![(0, 2)]);
    assert!(match_offsets(b"ab", b"abc").is_empty());
    assert_eq!(match_offsets(b"abc", b"abc"), vec![(0, 3)]);
}

#[test]
fn case_insensitive_match() {
    let r = scan_file("f.txt", &lines(&["xx abc xx"]), "ABC");
    assert_eq!(r.len(), 1);
    assert_eq!(r[0].match_indices, vec![(3, 6)]);
    assert_eq!(r[0].line, "xx abc xx");
    assert_eq!(r[0].line_number, 1);
    assert_eq!(scan_line("HeLLo WORLD", "world"), vec![(6, 11)]);
}

#[test]
fn overlap_policy() {
    assert_eq!(match_offsets(b"aaaa", b"aa"), vec![(0, 2), (2, 4)]);
    let r = scan_file("f.txt", &lines(&["aaaa"]), "aa");
    assert_eq!(r[0].match_indices, vec![(0, 2), (2, 4)]);
}

#[test]
fn bom_stripped_from_first_line_only() {
    let r = scan_file("f.txt", &lines(&["\u{feff}Hello", "\u{feff}hello"]), "hello");
    assert_eq!(r.len(), 2);
    assert_eq!(r[0].line, "Hello");
    assert_eq!(r[0].match_indices, vec![(0, 5)]);
    assert_eq!(r[1].line, "\u{feff}hello");
    assert_eq!(r[1].match_indices, vec![(3, 8)]);
}

#[test]
fn binary_extension_filtering() {
    assert!(is_binary_ext("photo.png"));
    assert!(is_binary_ext("dir/PHOTO.PNG"));
    assert!(is_binary_ext("archive.tar.gz"));
    assert!(!is_binary_ext("notes.txt"));
    assert!(!is_binary_ext("Makefile"));
    assert!(!is_binary_ext(".png"));
    assert!(!should_scan(false, true, "photo.png"));
    assert!(should_scan(false, true, "notes.txt"));
    assert!(!should_scan(false, false, "src"));
    assert!(is_binary_extension(b"woff2"));
    assert!(!is_binary_extension(b"rs"));
}

#[test]
fn malformed_lines_are_skipped() {
    let content = vec![Some("key one".to_string()), None, Some("no".to_string()), Some("KEY".to_string())];
    let r = scan_file("notes.txt", &content, "key");
    assert_eq!(r.len(), 2);
    assert_eq!(r[0].line_number, 1);
    assert_eq!(r[1].line_number, 4);
    assert_eq!(r[1].match_indices, vec![(0, 3)]);
}

#[test]
fn cancellation_skips_every_entry() {
    assert!(!should_scan(true, true, "a.txt"));
    assert!(!should_scan(true, false, "dir"));
    let all: Vec<Vec<SearchMatch>> = vec![Vec::new(), Vec::new()];
    assert!(gather(all).is_empty());
}

#[test]
fn end_to_end_example() {
    let entries: Vec<(&str, bool, Vec<Option<String>>)> = vec![
        ("root/a.txt", true, lines(&["Hello", "world hello"])),
        ("root/b.bin", true, vec![None, Some("hello hello".to_string())]),
        ("root/sub", false, Vec::new()),
    ];
    let mut per_entry: Vec<Vec<SearchMatch>> = Vec::new();
    for (path, is_file, content) in entries.iter() {
        if should_scan(false, *is_file, path) {
            per_entry.push(scan_file(path, content, "hello"));
        }
    }
    let r = gather(per_entry);
    assert_eq!(r.len(), 2);
    assert_eq!(r[0].file, "root/a.txt");
    assert_eq!(r[0].line_number, 1);
    assert_eq!(r[0].match_indices, vec![(0, 5)]);
    assert_eq!(r[1].file, "root/a.txt");
    assert_eq!(r[1].line_number, 2);
    assert_eq!(r[1].line, "world hello");
    assert_eq!(r[1].match_indices, vec![(6, 11)]);
}

#[test]
fn gather_keeps_entry_order() {
    let a = scan_file("a", &lines(&["x"]), "x");
    let b = scan_file("b", &lines(&["x", "yx"]), "x");
    let r = gather(vec![a, Vec::new(), b]);
    let files: Vec<&str> = r.iter().map(|m| m.file.as_str()).collect();
    assert_eq!(files, vec!["a", "b", "b"]);
    assert_eq!(r[2].match_indices, vec![(1, 2)]);
}

#[test]
fn folded_scan_takes_lower_keyword() {
    let r = scan_file_folded("f", &lines(&["ABC abc"]), "abc");
    assert_eq!(r[0].match_indices, vec![(0, 3), (4, 7)]);
}

#[test]
fn listing_entries() {
    let d = listing_entry("proj//", "src", "proj/src", true).unwrap();
    assert_eq!(d.name, "src");
    assert_eq!(d.kind, "directory");
    assert_eq!(d.path, "proj/src");
    let f = listing_entry("proj", "main.rs", "proj/main.rs", false).unwrap();
    assert_eq!(f.kind, "file");
    assert_eq!(f.path, "proj/main.rs");
    assert!(listing_entry("proj", "logo.png", "proj/logo.png", false).is_none());
    assert!(listing_entry("proj", "assets.png", "proj/assets.png", true).is_some());
}

#[test]
fn file_text_strips_marks() {
    assert_eq!(file_text(Some("\u{feff}\u{feff}text\u{feff}".to_string())), "text\u{feff}");
    assert_eq!(file_text(Some("plain".to_string())), "plain");
    assert_eq!(file_text(None), "[Error: Could not read file as UTF-8]");
}

#[test]
fn extension_scripts() {
    assert!(is_extension_script("ext/tool.js"));
    assert!(!is_extension_script("ext/tool.JS"));
    assert!(!is_extension_script("ext/tool.json"));
    assert!(!is_extension_script("ext/js"));
}

#[test]
fn byte_helpers() {
    assert_eq!(to_ascii_lower(b"AbZ-9\xc3\x84"), b"abz-9\xc3\x84".to_vec());
    assert!(bytes_equal(b"abc", b"abc"));
    assert!(!bytes_equal(b"abc", b"abd"));
    assert!(!bytes_equal(b"ab", b"abc"));
    assert!(occurs_at_exec(b"xxabc", b"abc", 2));
    assert!(!occurs_at_exec(b"xxabc", b"abc", 1));
}
