//! Diffs as text: the patch of a pull request cut into its files, and the
//! patches of a working tree put together into one text.

use crate::git::{git_path, normalize_git_chars};
use crate::text::{
    append_chars, char_is_whitespace, copy_chars, first_index, from_chars, has_prefix,
    is_whitespace, join, join_rows, lemma_first_index_is, lines, rows_of, slice_chars, split_lines,
    starts_with, to_chars, trim, trim_chars, trim_start,
};
use vstd::prelude::*;

verus! {

/// The part of a pull request's diff that is about one file.
#[derive(Clone, Debug, PartialEq, Eq)]
pub struct GitHubPullRequestDiff {
    /// The file's path, as git writes it.
    pub path: String,
    /// `A`, `D`, `R` or `M`.
    pub status: String,
    /// The lines of the diff that are about the file, joined by line feeds.
    pub diff: String,
}

/// The mathematical value of a [`GitHubPullRequestDiff`].
pub struct FileDiffView {
    pub path: Seq<char>,
    pub status: Seq<char>,
    pub diff: Seq<char>,
}

impl View for GitHubPullRequestDiff {
    type V = FileDiffView;

    open spec fn view(&self) -> FileDiffView {
        FileDiffView { path: self.path@, status: self.status@, diff: self.diff@ }
    }
}

/// The values of a list of file diffs.
pub open spec fn diffs_of(entries: Seq<GitHubPullRequestDiff>) -> Seq<FileDiffView> {
    entries.map_values(|entry: GitHubPullRequestDiff| entry@)
}

/// What has been read of the file that the diff is at.
pub struct Section {
    /// The lines read so far.
    pub rows: Seq<Seq<char>>,
    /// The file's path before the change, where one was named.
    pub old_path: Option<Seq<char>>,
    /// The file's path after the change, where one was named.
    pub new_path: Option<Seq<char>>,
    /// The letter of the change, where a line told it.
    pub status: Option<Seq<char>>,
}

/// `s` with every leading copy of `prefix` taken off.
pub open spec fn without_leading(s: Seq<char>, prefix: Seq<char>) -> Seq<char>
    decreases s.len(),
{
    if prefix.len() > 0 && starts_with(s, prefix) {
        without_leading(s.skip(prefix.len() as int), prefix)
    } else {
        s
    }
}

/// The first word of `s`: what stands between its leading whitespace and the
/// next whitespace.
pub open spec fn first_word(s: Seq<char>) -> Seq<char> {
    let t = trim_start(s);
    t.take(first_index(t, |c: char| is_whitespace(c)) as int)
}

/// What follows the first word of `s`.
pub open spec fn after_first_word(s: Seq<char>) -> Seq<char> {
    let t = trim_start(s);
    t.skip(first_index(t, |c: char| is_whitespace(c)) as int)
}

/// The text, or nothing where it is empty.
pub open spec fn non_empty(s: Seq<char>) -> Option<Seq<char>> {
    if s.len() == 0 {
        None
    } else {
        Some(s)
    }
}

/// The section that a line `diff --git a/<old> b/<new>` opens.
pub open spec fn opened(line: Seq<char>) -> Section {
    let rest = trim(without_leading(line, "diff --git "@));
    Section {
        rows: seq![line],
        old_path: non_empty(without_leading(first_word(rest), "a/"@)),
        new_path: non_empty(without_leading(first_word(after_first_word(rest)), "b/"@)),
        status: None,
    }
}

/// The section with one more line, which may tell the change or a path.
pub open spec fn extended(section: Section, line: Seq<char>) -> Section {
    let rows = section.rows.push(line);
    if starts_with(line, "new file mode "@) {
        Section { rows, status: Some("A"@), ..section }
    } else if starts_with(line, "deleted file mode "@) {
        Section { rows, status: Some("D"@), ..section }
    } else if starts_with(line, "rename from "@) {
        let path = trim(without_leading(line, "rename from "@));
        Section {
            rows,
            status: Some("R"@),
            old_path: if path.len() > 0 {
                Some(path)
            } else {
                section.old_path
            },
            ..section
        }
    } else if starts_with(line, "rename to "@) {
        let path = trim(without_leading(line, "rename to "@));
        Section {
            rows,
            status: Some("R"@),
            new_path: if path.len() > 0 {
                Some(path)
            } else {
                section.new_path
            },
            ..section
        }
    } else {
        Section { rows, ..section }
    }
}

/// The letter of a section's change: `M` where no line told it.
pub open spec fn section_status(section: Section) -> Seq<char> {
    match section.status {
        Some(letter) => letter,
        None => "M"@,
    }
}

/// The path that a section is filed under: the old one for a deleted file,
/// else the new one, or the old one where no new one was named; empty where
/// there is none.
pub open spec fn section_path(section: Section) -> Seq<char> {
    if section_status(section) == "D"@ {
        match section.old_path {
            Some(path) => path,
            None => Seq::empty(),
        }
    } else {
        match section.new_path {
            Some(path) => path,
            None => match section.old_path {
                Some(path) => path,
                None => Seq::empty(),
            },
        }
    }
}

/// What a section gives once it is complete: one file diff, or none where it
/// holds no text or names no path.
pub open spec fn closed(section: Section) -> Seq<FileDiffView> {
    let text = join(section.rows, seq!['\n']);
    if section.rows.len() == 0 || trim(text).len() == 0 || section_path(section).len() == 0 {
        Seq::empty()
    } else {
        seq![
            FileDiffView {
                path: git_path(section_path(section)),
                status: section_status(section),
                diff: text,
            },
        ]
    }
}

/// The file diffs of the lines that are still to be read, `section` being
/// what was read of the file that the diff is at.
pub open spec fn sections(rows: Seq<Seq<char>>, section: Section) -> Seq<FileDiffView>
    decreases rows.len(),
{
    if rows.len() == 0 {
        closed(section)
    } else if starts_with(rows[0], "diff --git "@) {
        closed(section) + sections(rows.skip(1), opened(rows[0]))
    } else {
        sections(rows.skip(1), extended(section, rows[0]))
    }
}

/// A section with nothing read.
pub open spec fn blank() -> Section {
    Section { rows: Seq::empty(), old_path: None, new_path: None, status: None }
}

/// The file diffs of a pull request's diff: a line that begins with
/// `diff --git ` opens the next file.
pub open spec fn pr_diff(diff: Seq<char>) -> Seq<FileDiffView> {
    sections(lines(diff), blank())
}

/// The characters of optional characters.
pub open spec fn chars_view(text: Option<Vec<char>>) -> Option<Seq<char>> {
    match text {
        Some(t) => Some(t@),
        None => None,
    }
}

/// `v` with every leading copy of `prefix` taken off.
pub fn strip_leading(v: &[char], prefix: &[char]) -> (out: Vec<char>)
    ensures
        out@ == without_leading(v@, prefix@),
{
    let mut from: usize = 0;
    assert(v@.skip(0) == v@);
    if prefix.len() > 0 {
        loop
            invariant
                from <= v.len(),
                prefix.len() > 0,
                without_leading(v@, prefix@) == without_leading(v@.skip(from as int), prefix@),
            ensures
                from <= v.len(),
                without_leading(v@, prefix@) == v@.skip(from as int),
            decreases v.len() - from,
        {
            let rest = slice_chars(v, from, v.len());
            if !has_prefix(rest.as_slice(), prefix) {
                break;
            }
            assert(v@.skip(from as int).skip(prefix.len() as int) == v@.skip(
                from + prefix.len(),
            ));
            from = from + prefix.len();
        }
    }
    let out = slice_chars(v, from, v.len());
    out
}

/// The first word of `v`, and the index in `v` where it ends.
fn take_word(v: &[char], from: usize) -> (found: (Vec<char>, usize))
    requires
        from <= v.len(),
    ensures
        from <= found.1 <= v.len(),
        found.0@ == first_word(v@.skip(from as int)),
        v@.skip(found.1 as int) == after_first_word(v@.skip(from as int)),
{
    let ghost s = v@.skip(from as int);
    let mut start: usize = from;
    while start < v.len() && char_is_whitespace(v[start])
        invariant
            from <= start <= v.len(),
            s == v@.skip(from as int),
            trim_start(s) == trim_start(v@.skip(start as int)),
        decreases v.len() - start,
    {
        assert(v@.skip(start as int).skip(1) == v@.skip(start + 1));
        start += 1;
    }
    let ghost t = v@.skip(start as int);
    let mut end: usize = start;
    while end < v.len() && !char_is_whitespace(v[end])
        invariant
            start <= end <= v.len(),
            t == v@.skip(start as int),
            forall|j: int| 0 <= j < end - start ==> !is_whitespace(#[trigger] t[j]),
        decreases v.len() - end,
    {
        end += 1;
    }
    proof {
        let p = |c: char| is_whitespace(c);
        lemma_first_index_is(t, p, end - start);
    }
    (slice_chars(v, start, end), end)
}

/// The characters, or nothing where there are none.
fn keep_non_empty(v: Vec<char>) -> (kept: Option<Vec<char>>)
    ensures
        chars_view(kept) == non_empty(v@),
{
    if v.len() == 0 {
        None
    } else {
        Some(v)
    }
}

/// What has been read of the file that the diff is at.
struct Reading {
    rows: Vec<Vec<char>>,
    old_path: Option<Vec<char>>,
    new_path: Option<Vec<char>>,
    status: Option<&'static str>,
}

impl View for Reading {
    type V = Section;

    closed spec fn view(&self) -> Section {
        Section {
            rows: rows_of(self.rows@),
            old_path: chars_view(self.old_path),
            new_path: chars_view(self.new_path),
            status: crate::git::str_view(self.status),
        }
    }
}

/// The section that a line `diff --git a/<old> b/<new>` opens.
fn open_section(line: &[char]) -> (reading: Reading)
    ensures
        reading@ == opened(line@),
{
    let marker = to_chars("diff --git ");
    let stripped = strip_leading(line, marker.as_slice());
    let rest = trim_chars(stripped.as_slice());
    assert(rest@.skip(0) == rest@);
    let (old_word, after_old) = take_word(rest.as_slice(), 0);
    let (new_word, _) = take_word(rest.as_slice(), after_old);
    let a = to_chars("a/");
    let b = to_chars("b/");
    let old_path = keep_non_empty(strip_leading(old_word.as_slice(), a.as_slice()));
    let new_path = keep_non_empty(strip_leading(new_word.as_slice(), b.as_slice()));
    let mut rows: Vec<Vec<char>> = Vec::new();
    rows.push(copy_chars(line));
    assert(rows_of(rows@) =~= seq![line@]);
    Reading { rows, old_path, new_path, status: None }
}

/// The path that a `rename` line names.
fn renamed_path(line: &[char], marker: &str) -> (path: Vec<char>)
    ensures
        path@ == trim(without_leading(line@, marker@)),
{
    let prefix = to_chars(marker);
    let stripped = strip_leading(line, prefix.as_slice());
    trim_chars(stripped.as_slice())
}

/// Whether the line begins with `marker`.
fn begins_with(line: &[char], marker: &str) -> (yes: bool)
    ensures
        yes == starts_with(line@, marker@),
{
    let prefix = to_chars(marker);
    has_prefix(line, prefix.as_slice())
}

/// Reads one more line into the section.
fn extend_section(reading: &mut Reading, line: &[char])
    ensures
        final(reading)@ == extended(old(reading)@, line@),
{
    if begins_with(line, "new file mode ") {
        reading.status = Some("A");
    } else if begins_with(line, "deleted file mode ") {
        reading.status = Some("D");
    } else if begins_with(line, "rename from ") {
        reading.status = Some("R");
        let path = renamed_path(line, "rename from ");
        if path.len() > 0 {
            reading.old_path = Some(path);
        }
    } else if begins_with(line, "rename to ") {
        reading.status = Some("R");
        let path = renamed_path(line, "rename to ");
        if path.len() > 0 {
            reading.new_path = Some(path);
        }
    }
    let ghost before = rows_of(reading.rows@);
    reading.rows.push(copy_chars(line));
    assert(rows_of(reading.rows@) =~= before.push(line@));
}

/// Files the section, where it has something to file.
fn close_section(reading: &Reading, entries: &mut Vec<GitHubPullRequestDiff>)
    ensures
        diffs_of(final(entries)@) == diffs_of(old(entries)@) + closed(reading@),
{
    if reading.rows.len() == 0 {
        return;
    }
    let sep: Vec<char> = vec!['\n'];
    assert(sep@ == seq!['\n']);
    let text = join_rows(&reading.rows, sep.as_slice());
    let trimmed = trim_chars(text.as_slice());
    if trimmed.len() == 0 {
        return;
    }
    let status: &'static str = match reading.status {
        Some(letter) => letter,
        None => "M",
    };
    let deleted = crate::text::str_eq(status, "D");
    let path: Vec<char> = if deleted {
        match &reading.old_path {
            Some(path) => copy_chars(path.as_slice()),
            None => Vec::new(),
        }
    } else {
        match &reading.new_path {
            Some(path) => copy_chars(path.as_slice()),
            None => match &reading.old_path {
                Some(path) => copy_chars(path.as_slice()),
                None => Vec::new(),
            },
        }
    };
    if path.len() == 0 {
        return;
    }
    let normal = normalize_git_chars(path.as_slice());
    let entry = GitHubPullRequestDiff {
        path: from_chars(normal.as_slice()),
        status: status.to_owned(),
        diff: from_chars(text.as_slice()),
    };
    entries.push(entry);
}

/// Cuts the diff of a pull request into its files.
pub fn parse_pr_diff(diff: &str) -> (entries: Vec<GitHubPullRequestDiff>)
    ensures
        diffs_of(entries@) == pr_diff(diff@),
{
    let text = to_chars(diff);
    let rows = split_lines(text.as_slice());
    let ghost all = rows_of(rows@);
    let mut entries: Vec<GitHubPullRequestDiff> = Vec::new();
    let mut reading = Reading { rows: Vec::new(), old_path: None, new_path: None, status: None };
    assert(reading@.rows =~= Seq::<Seq<char>>::empty());
    assert(all.skip(0) == all);
    let mut i: usize = 0;
    while i < rows.len()
        invariant
            i <= rows.len(),
            all == rows_of(rows@),
            pr_diff(diff@) == diffs_of(entries@) + sections(all.skip(i as int), reading@),
        decreases rows.len() - i,
    {
        assert(all.skip(i as int).skip(1) == all.skip(i + 1));
        let line = rows[i].as_slice();
        if begins_with(line, "diff --git ") {
            close_section(&reading, &mut entries);
            reading = open_section(line);
        } else {
            extend_section(&mut reading, line);
        }
        i += 1;
    }
    close_section(&reading, &mut entries);
    entries
}

/// The patch of one file of a working tree.
#[derive(Clone, Debug, PartialEq, Eq)]
pub struct Patch {
    /// The file's path, as it is shown.
    pub path: String,
    /// The patch as text.
    pub content: String,
}

/// The patches as one text: each that is not blank under a heading
/// `=== <path> ===`, with an empty line between two of them.
pub open spec fn combined(patches: Seq<Patch>) -> Seq<char>
    decreases patches.len(),
{
    if patches.len() == 0 {
        Seq::empty()
    } else {
        let before = combined(patches.drop_last());
        let patch = patches.last();
        if trim(patch.content@).len() == 0 {
            before
        } else if before.len() == 0 {
            "=== "@ + patch.path@ + " ===\n"@ + patch.content@
        } else {
            before + "\n\n"@ + "=== "@ + patch.path@ + " ===\n"@ + patch.content@
        }
    }
}

/// Puts the patches of a working tree together into one text.
pub fn build_combined_diff(patches: &Vec<Patch>) -> (text: String)
    ensures
        text@ == combined(patches@),
{
    let mut out: Vec<char> = Vec::new();
    let mut i: usize = 0;
    while i < patches.len()
        invariant
            i <= patches.len(),
            out@ == combined(patches@.take(i as int)),
        decreases patches.len() - i,
    {
        assert(patches@.take(i + 1).drop_last() =~= patches@.take(i as int));
        let content = to_chars(patches[i].content.as_str());
        let trimmed = trim_chars(content.as_slice());
        if trimmed.len() > 0 {
            if out.len() > 0 {
                let gap = to_chars("\n\n");
                append_chars(&mut out, gap.as_slice());
            }
            let open = to_chars("=== ");
            append_chars(&mut out, open.as_slice());
            let path = to_chars(patches[i].path.as_str());
            append_chars(&mut out, path.as_slice());
            let close = to_chars(" ===\n");
            append_chars(&mut out, close.as_slice());
            append_chars(&mut out, content.as_slice());
        }
        i += 1;
    }
    assert(patches@.take(patches.len() as int) =~= patches@);
    from_chars(out.as_slice())
}

/// Whether the diff of what is staged is the one that is shown, so that the
/// working tree need not be compared at all: it is where it holds anything
/// but whitespace.
pub fn staged_diff_is_shown(staged: &str) -> (shown: bool)
    ensures
        shown == (trim(staged@).len() > 0),
{
    let chars = to_chars(staged);
    let trimmed = trim_chars(chars.as_slice());
    trimmed.len() > 0
}

/// Which diff of a working tree is shown: the one of what is staged, where
/// it holds anything but whitespace, and else the one of the working tree.
pub fn collect_workspace_diff(staged: String, unstaged: String) -> (shown: String)
    ensures
        shown@ == if trim(staged@).len() > 0 {
            staged@
        } else {
            unstaged@
        },
{
    let chars = to_chars(staged.as_str());
    let trimmed = trim_chars(chars.as_slice());
    if trimmed.len() > 0 {
        staged
    } else {
        unstaged
    }
}

} // verus!
