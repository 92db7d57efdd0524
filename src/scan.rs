use vstd::prelude::*;
use vstd::utf8::encode_utf8;
use vstd::string::StringSliceAdditionalSpecFns;
use crate::matcher::{greedy_matches, match_offsets, offsets_view};
use crate::text::{lower_of, lowercase, strip_bom, trim_bom};

verus! {

/// One line of one file that holds the keyword.
pub struct SearchMatch {
    /// The path of the file.
    pub file: String,
    /// The line's number in the file, counted from 1.
    pub line_number: usize,
    /// The line as it stands in the file, without a leading byte-order mark.
    pub line: String,
    /// The `(start, end)` byte offsets of the keyword's occurrences in the line.
    pub match_indices: Vec<(usize, usize)>,
}

/// A [`SearchMatch`] as plain values.
pub struct MatchView {
    pub file: Seq<char>,
    pub line_number: int,
    pub line: Seq<char>,
    pub offsets: Seq<(int, int)>,
}

impl View for SearchMatch {
    type V = MatchView;

    open spec fn view(&self) -> MatchView {
        MatchView {
            file: self.file@,
            line_number: self.line_number as int,
            line: self.line@,
            offsets: offsets_view(self.match_indices@),
        }
    }
}

/// A list of matches as plain values.
pub open spec fn matches_view(v: Seq<SearchMatch>) -> Seq<MatchView> {
    v.map_values(|m: SearchMatch| m@)
}

/// The occurrences of the lower-case keyword `lower_keyword` in `line`, with
/// the line lowered the same way, as byte offsets.
pub open spec fn line_offsets(line: Seq<char>, lower_keyword: Seq<char>) -> Seq<(int, int)> {
    greedy_matches(encode_utf8(lower_of(line)), encode_utf8(lower_keyword))
}

/// The text of line `i` of a file: the first line loses its leading
/// byte-order marks.
pub open spec fn line_text(line: Seq<char>, i: int) -> Seq<char> {
    if i == 0 {
        strip_bom(line)
    } else {
        line
    }
}

/// The matches among the first `n` lines of `file`, in line order. A line that
/// could not be read as text (`None`) gives none.
pub open spec fn file_matches(
    file: Seq<char>,
    lines: Seq<Option<String>>,
    lower_keyword: Seq<char>,
    n: int,
) -> Seq<MatchView>
    decreases n,
{
    if n <= 0 {
        Seq::empty()
    } else {
        let prev = file_matches(file, lines, lower_keyword, n - 1);
        match lines[n - 1] {
            Some(l) => {
                let text = line_text(l@, n - 1);
                let offsets = line_offsets(text, lower_keyword);
                if offsets.len() > 0 {
                    prev.push(MatchView { file, line_number: n, line: text, offsets })
                } else {
                    prev
                }
            },
            None => prev,
        }
    }
}

/// The keyword as it is searched for: lowered, and empty when it is empty.
pub open spec fn folded_keyword(keyword: Seq<char>) -> Seq<char> {
    if keyword.len() == 0 {
        Seq::empty()
    } else {
        lower_of(keyword)
    }
}

/// The byte offsets of the occurrences of the lower-case keyword in `line`,
/// found case-insensitively.
pub fn scan_line(line: &str, lower_keyword: &str) -> (r: Vec<(usize, usize)>)
    ensures
        offsets_view(r@) == line_offsets(line@, lower_keyword@),
{
    let lowered = lowercase(line);
    match_offsets(lowered.as_str().as_bytes(), lower_keyword.as_bytes())
}

/// The matches of the lower-case keyword in the lines of `file`, in line
/// order: one for each readable line with an occurrence.
pub fn scan_file_folded(file: &str, lines: &Vec<Option<String>>, lower_keyword: &str) -> (r: Vec<
    SearchMatch,
>)
    ensures
        matches_view(r@) == file_matches(file@, lines@, lower_keyword@, lines@.len() as int),
{
    let mut r: Vec<SearchMatch> = Vec::new();
    let mut i: usize = 0;
    while i < lines.len()
        invariant
            i <= lines@.len(),
            matches_view(r@) == file_matches(file@, lines@, lower_keyword@, i as int),
        decreases lines@.len() - i,
    {
        let ghost prev = r@;
        match &lines[i] {
            Some(l) => {
                let text = if i == 0 {
                    trim_bom(l.as_str())
                } else {
                    l.clone()
                };
                assert(text@ == line_text(l@, i as int));
                let offsets = scan_line(text.as_str(), lower_keyword);
                if offsets.len() > 0 {
                    let m = SearchMatch {
                        file: file.to_owned(),
                        line_number: i + 1,
                        line: text,
                        match_indices: offsets,
                    };
                    r.push(m);
                    assert(matches_view(r@) =~= matches_view(prev).push(m@));
                }
            },
            None => {},
        }
        i = i + 1;
    }
    r
}

/// The matches of `keyword` in the lines of `file`, found case-insensitively.
/// An empty keyword matches nowhere.
pub fn scan_file(file: &str, lines: &Vec<Option<String>>, keyword: &str) -> (r: Vec<SearchMatch>)
    ensures
        matches_view(r@) == file_matches(
            file@,
            lines@,
            folded_keyword(keyword@),
            lines@.len() as int,
        ),
{
    if keyword.is_empty() {
        let r: Vec<SearchMatch> = Vec::new();
        proof {
            assert(keyword@ =~= Seq::<char>::empty());
            lemma_empty_keyword_file(file@, lines@, lines@.len() as int);
            assert(matches_view(r@) =~= file_matches(
                file@,
                lines@,
                folded_keyword(keyword@),
                lines@.len() as int,
            ));
        }
        return r;
    }
    let lower_keyword = lowercase(keyword);
    scan_file_folded(file, lines, lower_keyword.as_str())
}

/// An empty keyword gives no match in any file.
pub proof fn lemma_empty_keyword_file(file: Seq<char>, lines: Seq<Option<String>>, n: int)
    ensures
        file_matches(file, lines, folded_keyword(Seq::empty()), n).len() == 0,
    decreases n,
{
    assert(encode_utf8(Seq::<char>::empty()) =~= Seq::<u8>::empty());
    if n > 0 {
        lemma_empty_keyword_file(file, lines, n - 1);
    }
}

/// After removing leading byte-order marks, none is left at the front.
pub proof fn lemma_strip_bom_leaves_no_mark(s: Seq<char>)
    ensures
        strip_bom(s).len() == 0 || strip_bom(s)[0] != '\u{feff}',
    decreases s.len(),
{
    if s.len() > 0 && s[0] == '\u{feff}' {
        lemma_strip_bom_leaves_no_mark(s.drop_first());
    }
}

/// Each match of a file is a readable line of it that holds the keyword: it
/// carries the file's path, the line's number, the line's text (the first
/// line without its byte-order marks, so that no mark is left in it) and the
/// offsets of the keyword in that text; and the matches come in strictly
/// increasing line order.
pub proof fn lemma_file_matches_records(
    file: Seq<char>,
    lines: Seq<Option<String>>,
    lower_keyword: Seq<char>,
    n: int,
)
    requires
        0 <= n <= lines.len(),
    ensures
        forall|j: int|
            0 <= j < file_matches(file, lines, lower_keyword, n).len() ==> {
                let m = #[trigger] file_matches(file, lines, lower_keyword, n)[j];
                &&& m.file == file
                &&& 1 <= m.line_number <= n
                &&& lines[m.line_number - 1] is Some
                &&& m.line == line_text(lines[m.line_number - 1]->0@, m.line_number - 1)
                &&& m.line.len() == 0 || m.line[0] != '\u{feff}' || m.line_number > 1
                &&& m.offsets == line_offsets(m.line, lower_keyword)
                &&& m.offsets.len() > 0
            },
        forall|j: int|
            0 <= j < file_matches(file, lines, lower_keyword, n).len() - 1 ==> (#[trigger] file_matches(
                file,
                lines,
                lower_keyword,
                n,
            )[j]).line_number < file_matches(file, lines, lower_keyword, n)[j + 1].line_number,
    decreases n,
{
    if n > 0 {
        lemma_file_matches_records(file, lines, lower_keyword, n - 1);
        if lines[0] is Some {
            lemma_strip_bom_leaves_no_mark(lines[0]->0@);
        }
        let prev = file_matches(file, lines, lower_keyword, n - 1);
        let cur = file_matches(file, lines, lower_keyword, n);
        assert forall|j: int| 0 <= j < prev.len() implies cur[j] == prev[j] by {}
    }
}

} // verus!
