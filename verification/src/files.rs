//! File header validation: line splitting, line comparison, and the header
//! matcher that checks files against header templates.

use core::cmp::Ordering;
use vstd::prelude::*;
use vstd::string::*;

verus! {

// ---------------------------------------------------------------------------
// Ordering of characters, strings and line sequences
// ---------------------------------------------------------------------------
/// Ordering of two characters by their scalar values.
pub open spec fn char_cmp(x: char, y: char) -> Ordering {
    if x == y {
        Ordering::Equal
    } else if (x as u32) < (y as u32) {
        Ordering::Less
    } else {
        Ordering::Greater
    }
}

/// Lexicographic ordering of two strings: the first differing character
/// decides, then the shorter string is `Less`.
pub open spec fn str_cmp(a: Seq<char>, b: Seq<char>) -> Ordering
    decreases a.len(),
{
    if a.len() == 0 && b.len() == 0 {
        Ordering::Equal
    } else if a.len() == 0 {
        Ordering::Less
    } else if b.len() == 0 {
        Ordering::Greater
    } else if char_cmp(a[0], b[0]) == Ordering::Equal {
        str_cmp(a.drop_first(), b.drop_first())
    } else {
        char_cmp(a[0], b[0])
    }
}

/// Generalized prefix ordering of two sequences of lines: the first pair of
/// lines that differ decides, then the sequence with fewer lines is `Less`,
/// so `Equal` holds only for line sequences that are equal throughout.
pub open spec fn lines_cmp(a: Seq<Seq<char>>, b: Seq<Seq<char>>) -> Ordering
    decreases a.len(),
{
    if a.len() == 0 && b.len() == 0 {
        Ordering::Equal
    } else if a.len() == 0 {
        Ordering::Less
    } else if b.len() == 0 {
        Ordering::Greater
    } else if str_cmp(a[0], b[0]) == Ordering::Equal {
        lines_cmp(a.drop_first(), b.drop_first())
    } else {
        str_cmp(a[0], b[0])
    }
}

/// Two strings compare `Equal` exactly when they are the same sequence.
pub proof fn lemma_str_cmp_equal_iff(a: Seq<char>, b: Seq<char>)
    ensures
        str_cmp(a, b) == Ordering::Equal <==> a =~= b,
    decreases a.len(),
{
    if a.len() > 0 && b.len() > 0 {
        lemma_str_cmp_equal_iff(a.drop_first(), b.drop_first());
        if a[0] == b[0] && a.drop_first() =~= b.drop_first() {
            assert forall|i: int| 0 <= i < a.len() implies a[i] == b[i] by {
                if i > 0 {
                    assert(a.drop_first()[i - 1] == a[i]);
                    assert(b.drop_first()[i - 1] == b[i]);
                }
            }
            assert(a =~= b);
        }
    }
}

/// Two line sequences compare `Equal` exactly when they are equal.
pub proof fn lemma_lines_cmp_equal_iff(a: Seq<Seq<char>>, b: Seq<Seq<char>>)
    ensures
        lines_cmp(a, b) == Ordering::Equal <==> a =~= b,
    decreases a.len(),
{
    if a.len() > 0 && b.len() > 0 {
        lemma_str_cmp_equal_iff(a[0], b[0]);
        lemma_lines_cmp_equal_iff(a.drop_first(), b.drop_first());
        if str_cmp(a[0], b[0]) == Ordering::Equal && a.drop_first() =~= b.drop_first() {
            assert forall|i: int| 0 <= i < a.len() implies a[i] == b[i] by {
                if i > 0 {
                    assert(a.drop_first()[i - 1] == a[i]);
                    assert(b.drop_first()[i - 1] == b[i]);
                }
            }
            assert(a =~= b);
        }
    }
}

/// A line sequence that is a strict prefix of another compares `Less`, and
/// the longer one compares `Greater` against it.
pub proof fn lemma_lines_cmp_prefix(a: Seq<Seq<char>>, b: Seq<Seq<char>>)
    requires
        a.len() < b.len(),
        forall|i: int| 0 <= i < a.len() ==> a[i] == #[trigger] b[i],
    ensures
        lines_cmp(a, b) == Ordering::Less,
        lines_cmp(b, a) == Ordering::Greater,
    decreases a.len(),
{
    if a.len() > 0 {
        lemma_str_cmp_equal_iff(a[0], b[0]);
        lemma_str_cmp_equal_iff(b[0], a[0]);
        assert(forall|i: int|
            0 <= i < a.drop_first().len() ==> a.drop_first()[i] == #[trigger] b.drop_first()[i])
            by {
            assert(forall|i: int| 0 <= i < a.drop_first().len() ==> a.drop_first()[i] == a[i + 1]);
        }
        lemma_lines_cmp_prefix(a.drop_first(), b.drop_first());
    } else {
        assert(b.len() > 0);
    }
}

/// Compares two strings lexicographically by characters.
pub fn compare_strings(a: &str, b: &str) -> (r: Ordering)
    ensures
        r == str_cmp(a@, b@),
{
    let a_len = a.unicode_len();
    let b_len = b.unicode_len();
    let mut i: usize = 0;
    proof {
        assert(a@.skip(0) =~= a@);
        assert(b@.skip(0) =~= b@);
    }
    while i < a_len && i < b_len
        invariant
            i <= a_len <= a@.len(),
            i <= b_len <= b@.len(),
            a_len == a@.len(),
            b_len == b@.len(),
            str_cmp(a@, b@) == str_cmp(a@.skip(i as int), b@.skip(i as int)),
        decreases a_len - i,
    {
        let ca = a.get_char(i);
        let cb = b.get_char(i);
        proof {
            assert(a@.skip(i as int)[0] == a@[i as int]);
            assert(b@.skip(i as int)[0] == b@[i as int]);
        }
        if ca == cb {
            proof {
                assert(a@.skip(i as int).drop_first() =~= a@.skip(i + 1));
                assert(b@.skip(i as int).drop_first() =~= b@.skip(i + 1));
            }
            i = i + 1;
        } else if (ca as u32) < (cb as u32) {
            return Ordering::Less;
        } else {
            return Ordering::Greater;
        }
    }
    proof {
        assert(a@.skip(i as int).len() == a@.len() - i);
        assert(b@.skip(i as int).len() == b@.len() - i);
    }
    if a_len < b_len {
        Ordering::Less
    } else if a_len > b_len {
        Ordering::Greater
    } else {
        Ordering::Equal
    }
}

/// Compares two line sequences in lockstep: the first pairwise difference
/// decides, and otherwise the lengths are compared, so a strict prefix of a
/// longer line sequence is `Less`.
pub fn compare_lines(a: &Vec<String>, b: &Vec<String>) -> (r: Ordering)
    ensures
        r == lines_cmp(a.deep_view(), b.deep_view()),
{
    let mut i: usize = 0;
    proof {
        assert(a.deep_view().skip(0) =~= a.deep_view());
        assert(b.deep_view().skip(0) =~= b.deep_view());
    }
    while i < a.len() && i < b.len()
        invariant
            i <= a.len(),
            i <= b.len(),
            a.deep_view().len() == a@.len(),
            b.deep_view().len() == b@.len(),
            lines_cmp(a.deep_view(), b.deep_view()) == lines_cmp(
                a.deep_view().skip(i as int),
                b.deep_view().skip(i as int),
            ),
        decreases a.len() - i,
    {
        let ord = compare_strings(a[i].as_str(), b[i].as_str());
        proof {
            assert(a.deep_view().skip(i as int)[0] == a.deep_view()[i as int]);
            assert(b.deep_view().skip(i as int)[0] == b.deep_view()[i as int]);
            assert(a.deep_view()[i as int] == a@[i as int]@);
            assert(b.deep_view()[i as int] == b@[i as int]@);
        }
        match ord {
            Ordering::Equal => {
                proof {
                    assert(a.deep_view().skip(i as int).drop_first() =~= a.deep_view().skip(i + 1));
                    assert(b.deep_view().skip(i as int).drop_first() =~= b.deep_view().skip(i + 1));
                }
                i = i + 1;
            },
            _ => {
                return ord;
            },
        }
    }
    proof {
        assert(a.deep_view().skip(i as int).len() == a.deep_view().len() - i);
        assert(b.deep_view().skip(i as int).len() == b.deep_view().len() - i);
    }
    if a.len() < b.len() {
        Ordering::Less
    } else if a.len() > b.len() {
        Ordering::Greater
    } else {
        Ordering::Equal
    }
}

// ---------------------------------------------------------------------------
// Splitting text content into lines
// ---------------------------------------------------------------------------
/// Index of the first newline character, or the length when there is none.
pub open spec fn find_newline(s: Seq<char>) -> int
    decreases s.len(),
{
    if s.len() == 0 {
        0
    } else if s[0] == '\n' {
        0
    } else {
        1 + find_newline(s.drop_first())
    }
}

/// `find_newline` points at the first newline: everything before it is not a
/// newline, and it is a newline unless the whole sequence has none.
pub proof fn lemma_find_newline_bounds(s: Seq<char>)
    ensures
        0 <= find_newline(s) <= s.len(),
        forall|k: int| 0 <= k < find_newline(s) ==> s[k] != '\n',
        find_newline(s) < s.len() ==> s[find_newline(s)] == '\n',
    decreases s.len(),
{
    if s.len() > 0 && s[0] != '\n' {
        lemma_find_newline_bounds(s.drop_first());
        assert forall|k: int| 0 <= k < find_newline(s) implies s[k] != '\n' by {
            if k > 0 {
                assert(s.drop_first()[k - 1] == s[k]);
            }
        }
    }
}

/// A position with no newline before it, and a newline at it or the end of
/// the sequence, is what `find_newline` returns.
pub proof fn lemma_find_newline_at(s: Seq<char>, j: int)
    requires
        0 <= j <= s.len(),
        forall|k: int| 0 <= k < j ==> s[k] != '\n',
        j < s.len() ==> s[j] == '\n',
    ensures
        find_newline(s) == j,
    decreases s.len(),
{
    if s.len() > 0 && s[0] != '\n' {
        assert(forall|k: int| 0 <= k < s.drop_first().len() ==> s.drop_first()[k] == s[k + 1]);
        lemma_find_newline_at(s.drop_first(), j - 1);
    }
}

/// A line with its trailing carriage return removed, if it has one.
pub open spec fn strip_cr(l: Seq<char>) -> Seq<char> {
    if l.len() > 0 && l.last() == '\r' {
        l.drop_last()
    } else {
        l
    }
}

/// The lines of a text: content is split at `\n` characters, a carriage
/// return directly before a newline is removed, the terminators themselves
/// are not part of any line, and a final newline produces no trailing empty
/// line.
pub open spec fn line_split(s: Seq<char>) -> Seq<Seq<char>>
    decreases s.len(),
    via line_split_decreases
{
    if s.len() == 0 {
        Seq::empty()
    } else {
        let i = find_newline(s);
        if i == s.len() {
            seq![s]
        } else {
            seq![strip_cr(s.take(i))] + line_split(s.skip(i + 1))
        }
    }
}

#[via_fn]
proof fn line_split_decreases(s: Seq<char>) {
    lemma_find_newline_bounds(s);
}

/// The first `n` lines of a text, or all of them when it has fewer.
pub open spec fn top_lines(s: Seq<char>, n: int) -> Seq<Seq<char>> {
    if n <= line_split(s).len() {
        line_split(s).take(n)
    } else {
        line_split(s)
    }
}

/// Returns the content split into lines.
pub fn get_lines(content: &str) -> (r: Vec<String>)
    ensures
        r.deep_view() == line_split(content@),
{
    let n = content.unicode_len();
    let mut r: Vec<String> = Vec::new();
    let mut start: usize = 0;
    let mut i: usize = 0;
    proof {
        assert(content@.skip(0) =~= content@);
        assert(r.deep_view() =~= Seq::<Seq<char>>::empty());
    }
    while i < n
        invariant
            start <= i <= n,
            n == content@.len(),
            forall|k: int| start <= k < i ==> content@[k] != '\n',
            line_split(content@) == r.deep_view() + line_split(content@.skip(start as int)),
        decreases n - i,
    {
        let c = content.get_char(i);
        if c == '\n' {
            let mut end = i;
            if end > start && content.get_char(end - 1) == '\r' {
                end = end - 1;
            }
            let line = content.substring_char(start, end).to_owned();
            proof {
                let t = content@.skip(start as int);
                assert(forall|k: int| 0 <= k < t.len() ==> t[k] == content@[k + start]);
                lemma_find_newline_at(t, i - start);
                assert(t.take(i - start) =~= content@.subrange(start as int, i as int));
                assert(t.skip(i - start + 1) =~= content@.skip(i + 1));
                assert(strip_cr(content@.subrange(start as int, i as int)) =~= content@.subrange(
                    start as int,
                    end as int,
                ));
                assert(line_split(t) == seq![content@.subrange(start as int, end as int)]
                    + line_split(content@.skip(i + 1)));
            }
            let ghost old_r = r.deep_view();
            r.push(line);
            proof {
                assert(r.deep_view() =~= old_r.push(line@));
                assert(old_r.push(line@) =~= old_r + seq![content@.subrange(
                    start as int,
                    end as int,
                )]);
                assert(line_split(content@) == r.deep_view() + line_split(content@.skip(i + 1)));
            }
            start = i + 1;
        }
        i = i + 1;
    }
    proof {
        let t = content@.skip(start as int);
        assert(forall|k: int| 0 <= k < t.len() ==> t[k] == content@[k + start]);
        if start < n {
            lemma_find_newline_at(t, t.len() as int);
            assert(line_split(t) == seq![t]);
        } else {
            assert(t.len() == 0);
            assert(line_split(t) =~= Seq::<Seq<char>>::empty());
        }
    }
    if start < n {
        let line = content.substring_char(start, n).to_owned();
        let ghost old_r = r.deep_view();
        r.push(line);
        proof {
            assert(line@ =~= content@.skip(start as int));
            assert(r.deep_view() =~= old_r.push(line@));
            assert(old_r.push(line@) =~= old_r + seq![content@.skip(start as int)]);
            assert(r.deep_view() =~= line_split(content@));
        }
    } else {
        proof {
            assert(r.deep_view() =~= line_split(content@));
        }
    }
    r
}

/// Returns at most `size` lines from the top of the content.
pub fn get_top_lines(content: &str, size: usize) -> (r: Vec<String>)
    ensures
        r.deep_view() == top_lines(content@, size as int),
{
    let mut r = get_lines(content);
    let ghost full = r.deep_view();
    if size < r.len() {
        r.truncate(size);
        proof {
            assert(r.deep_view() =~= full.take(size as int));
        }
    }
    proof {
        assert(r.deep_view() =~= top_lines(content@, size as int));
    }
    r
}

// ---------------------------------------------------------------------------
// File existence guard and header matcher
// ---------------------------------------------------------------------------
/// A referenced file: its path, whether it exists, and its text content.
/// The content of a file that is missing or cannot be read as text is the
/// empty string; the existence guard keeps missing files out of comparisons.
#[derive(Clone, Debug)]
pub struct FileRef {
    pub path: String,
    pub exists: bool,
    pub content: String,
}

/// Whether every referenced file exists.
pub open spec fn all_exist(refs: Seq<FileRef>) -> bool {
    forall|i: int| 0 <= i < refs.len() ==> refs[i].exists
}

/// The paths of the missing files, in the order given.
pub open spec fn missing_of(refs: Seq<FileRef>) -> Seq<Seq<char>>
    decreases refs.len(),
{
    if refs.len() == 0 {
        Seq::empty()
    } else {
        missing_of(refs.drop_last()) + if refs.last().exists {
            Seq::empty()
        } else {
            seq![refs.last().path@]
        }
    }
}

/// Every referenced file exists exactly when no path is reported missing.
pub proof fn lemma_all_exist_iff_none_missing(refs: Seq<FileRef>)
    ensures
        all_exist(refs) <==> missing_of(refs).len() == 0,
    decreases refs.len(),
{
    if refs.len() > 0 {
        lemma_all_exist_iff_none_missing(refs.drop_last());
        assert(forall|i: int| 0 <= i < refs.len() - 1 ==> refs.drop_last()[i] == refs[i]);
        if all_exist(refs.drop_last()) && refs.last().exists {
            assert(all_exist(refs));
        }
    }
}

/// Verifies that all referenced files exist.
pub fn verify_files(refs: &Vec<FileRef>) -> (r: bool)
    ensures
        r == all_exist(refs@),
{
    let mut i: usize = 0;
    while i < refs.len()
        invariant
            i <= refs@.len(),
            forall|k: int| 0 <= k < i ==> refs@[k].exists,
        decreases refs@.len() - i,
    {
        if !refs[i].exists {
            return false;
        }
        i = i + 1;
    }
    true
}

/// Returns the paths of the missing files, in the order given.
pub fn missing_files(refs: &Vec<FileRef>) -> (r: Vec<String>)
    ensures
        r.deep_view() == missing_of(refs@),
{
    let mut r: Vec<String> = Vec::new();
    let mut i: usize = 0;
    proof {
        assert(r.deep_view() =~= missing_of(refs@.take(0)));
    }
    while i < refs.len()
        invariant
            i <= refs@.len(),
            r.deep_view() == missing_of(refs@.take(i as int)),
        decreases refs@.len() - i,
    {
        proof {
            assert(refs@.take(i + 1).drop_last() =~= refs@.take(i as int));
            assert(refs@.take(i + 1).last() == refs@[i as int]);
        }
        if !refs[i].exists {
            let ghost old_r = r.deep_view();
            r.push(refs[i].path.clone());
            proof {
                assert(r.deep_view() =~= old_r + seq![refs@[i as int].path@]);
            }
        } else {
            proof {
                assert(missing_of(refs@.take(i + 1)) =~= missing_of(refs@.take(i as int)));
            }
        }
        i = i + 1;
    }
    proof {
        assert(refs@.take(refs@.len() as int) =~= refs@);
    }
    r
}

/// Whether the leading lines of a file equal the lines of a header template:
/// as many lines are taken from the top of the file as the template has, and
/// they must compare `Equal` line for line. A template without any lines
/// matches nothing: a template that could not be read is handed in as empty
/// content, and empty content is equivalent to having no matching template.
pub open spec fn header_matches(file_content: Seq<char>, template_content: Seq<char>) -> bool {
    &&& line_split(template_content).len() > 0
    &&& lines_cmp(
        line_split(template_content),
        top_lines(file_content, line_split(template_content).len() as int),
    ) == Ordering::Equal
}

/// A header matches exactly when the template has at least one line and its
/// lines equal the same number of leading lines of the file.
pub proof fn lemma_header_matches_iff(file_content: Seq<char>, template_content: Seq<char>)
    ensures
        header_matches(file_content, template_content) <==> (line_split(template_content).len() > 0
            && line_split(template_content) =~= top_lines(
            file_content,
            line_split(template_content).len() as int,
        )),
{
    lemma_lines_cmp_equal_iff(
        line_split(template_content),
        top_lines(file_content, line_split(template_content).len() as int),
    );
}

/// Whether the file content matches the header lines of some template.
pub open spec fn matches_any(file_content: Seq<char>, templates: Seq<FileRef>) -> bool {
    exists|j: int| 0 <= j < templates.len() && header_matches(file_content, templates[j].content@)
}

/// Checks the file's leading lines against each template in the order given,
/// accepting on the first template whose lines all match. A template without
/// any lines is skipped: it matches nothing.
fn compare_file_headers(file: &FileRef, templates: &Vec<FileRef>) -> (r: bool)
    ensures
        r == matches_any(file.content@, templates@),
{
    let mut j: usize = 0;
    while j < templates.len()
        invariant
            j <= templates@.len(),
            forall|k: int|
                0 <= k < j ==> !header_matches(file.content@, #[trigger] templates@[k].content@),
        decreases templates@.len() - j,
    {
        let template_lines = get_lines(templates[j].content.as_str());
        proof {
            assert(template_lines.deep_view().len() == template_lines@.len());
        }
        if template_lines.len() > 0 {
            let file_lines = get_top_lines(file.content.as_str(), template_lines.len());
            let ord = compare_lines(&template_lines, &file_lines);
            match ord {
                Ordering::Equal => {
                    return true;
                },
                _ => {},
            }
        }
        j = j + 1;
    }
    false
}

/// Verifies that every file's header matches one of the templates: all files
/// and templates must exist, and each file's leading lines must equal some
/// template's lines; any missing path makes the overall result false before
/// any comparison runs.
pub fn check_headers(files: &Vec<FileRef>, templates: &Vec<FileRef>) -> (r: bool)
    ensures
        r == (all_exist(files@) && all_exist(templates@) && forall|i: int|
            0 <= i < files@.len() ==> matches_any(#[trigger] files@[i].content@, templates@)),
{
    if !verify_files(files) {
        return false;
    }
    if !verify_files(templates) {
        return false;
    }
    let mut i: usize = 0;
    while i < files.len()
        invariant
            i <= files@.len(),
            forall|k: int| 0 <= k < i ==> matches_any(#[trigger] files@[k].content@, templates@),
        decreases files@.len() - i,
    {
        if !compare_file_headers(&files[i], templates) {
            return false;
        }
        i = i + 1;
    }
    true
}

/// The paths of the files whose leading lines match no template, in the
/// order given.
pub open spec fn invalid_of(files: Seq<FileRef>, templates: Seq<FileRef>) -> Seq<Seq<char>>
    decreases files.len(),
{
    if files.len() == 0 {
        Seq::empty()
    } else {
        invalid_of(files.drop_last(), templates) + if matches_any(
            files.last().content@,
            templates,
        ) {
            Seq::empty()
        } else {
            seq![files.last().path@]
        }
    }
}

/// Every file matches some template exactly when no file is reported as
/// having an invalid header.
pub proof fn lemma_all_match_iff_none_invalid(files: Seq<FileRef>, templates: Seq<FileRef>)
    ensures
        (forall|i: int| 0 <= i < files.len() ==> matches_any(#[trigger] files[i].content@, templates))
            <==> invalid_of(files, templates).len() == 0,
    decreases files.len(),
{
    if files.len() > 0 {
        lemma_all_match_iff_none_invalid(files.drop_last(), templates);
        assert(forall|i: int| 0 <= i < files.len() - 1 ==> files.drop_last()[i] == files[i]);
        if (forall|i: int|
            0 <= i < files.drop_last().len() ==> matches_any(
                #[trigger] files.drop_last()[i].content@,
                templates,
            )) && matches_any(files.last().content@, templates) {
            assert forall|i: int| 0 <= i < files.len() implies matches_any(
                #[trigger] files[i].content@,
                templates,
            ) by {
                if i < files.len() - 1 {
                    assert(files.drop_last()[i] == files[i]);
                }
            }
        }
        if forall|i: int|
            0 <= i < files.len() ==> matches_any(#[trigger] files[i].content@, templates) {
            assert forall|i: int| 0 <= i < files.drop_last().len() implies matches_any(
                #[trigger] files.drop_last()[i].content@,
                templates,
            ) by {
                assert(files.drop_last()[i] == files[i]);
            }
        }
    }
}

/// Returns the paths of the files whose leading lines match no template, in
/// the order given, so that a caller validating many files sees every
/// failure, not just the first.
pub fn invalid_headers(files: &Vec<FileRef>, templates: &Vec<FileRef>) -> (r: Vec<String>)
    ensures
        r.deep_view() == invalid_of(files@, templates@),
{
    let mut r: Vec<String> = Vec::new();
    let mut i: usize = 0;
    proof {
        assert(r.deep_view() =~= invalid_of(files@.take(0), templates@));
    }
    while i < files.len()
        invariant
            i <= files@.len(),
            r.deep_view() == invalid_of(files@.take(i as int), templates@),
        decreases files@.len() - i,
    {
        proof {
            assert(files@.take(i + 1).drop_last() =~= files@.take(i as int));
            assert(files@.take(i + 1).last() == files@[i as int]);
        }
        if !compare_file_headers(&files[i], templates) {
            let ghost old_r = r.deep_view();
            r.push(files[i].path.clone());
            proof {
                assert(r.deep_view() =~= old_r + seq![files@[i as int].path@]);
            }
        } else {
            proof {
                assert(invalid_of(files@.take(i + 1), templates@) =~= invalid_of(
                    files@.take(i as int),
                    templates@,
                ));
            }
        }
        i = i + 1;
    }
    proof {
        assert(files@.take(files@.len() as int) =~= files@);
    }
    r
}

} // verus!
