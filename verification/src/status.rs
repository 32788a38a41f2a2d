//! The status of a working tree, file by file, as it is reported.

use crate::git::{
    has_any, includes_index, includes_workdir, index_letter, normalize_git_path, git_path,
    status_for_file, status_for_index, status_for_workdir, workdir_letter, Delta, INDEX_DELETED,
    INDEX_MODIFIED, INDEX_NEW, INDEX_RENAMED, INDEX_TYPECHANGE, WT_DELETED, WT_MODIFIED, WT_NEW,
    WT_RENAMED, WT_TYPECHANGE,
};
use crate::text::{to_chars, trim, trim_chars};
use vstd::prelude::*;

verus! {

/// Lines added and lines deleted.
#[derive(Clone, Copy, Debug, PartialEq, Eq)]
pub struct LineStats {
    pub additions: i64,
    pub deletions: i64,
}

/// One row of a status report.
#[derive(Clone, Debug, PartialEq, Eq)]
pub struct GitFileStatus {
    pub path: String,
    pub status: String,
    pub additions: i64,
    pub deletions: i64,
}

/// The mathematical value of a [`GitFileStatus`].
pub struct RowView {
    pub path: Seq<char>,
    pub status: Seq<char>,
    pub additions: int,
    pub deletions: int,
}

impl View for GitFileStatus {
    type V = RowView;

    open spec fn view(&self) -> RowView {
        RowView {
            path: self.path@,
            status: self.status@,
            additions: self.additions as int,
            deletions: self.deletions as int,
        }
    }
}

/// The values of a list of rows.
pub open spec fn rows_view(rows: Seq<GitFileStatus>) -> Seq<RowView> {
    rows.map_values(|row: GitFileStatus| row@)
}

/// The status of a working tree.
pub struct StatusReport {
    /// Every file that differs, with the lines of both sides together.
    pub files: Vec<GitFileStatus>,
    /// The files whose index differs from `HEAD`.
    pub staged_files: Vec<GitFileStatus>,
    /// The files whose working tree differs from the index.
    pub unstaged_files: Vec<GitFileStatus>,
    pub total_additions: i64,
    pub total_deletions: i64,
}

/// The mathematical value of a [`StatusReport`].
pub struct ReportView {
    pub files: Seq<RowView>,
    pub staged_files: Seq<RowView>,
    pub unstaged_files: Seq<RowView>,
    pub total_additions: int,
    pub total_deletions: int,
}

impl View for StatusReport {
    type V = ReportView;

    open spec fn view(&self) -> ReportView {
        ReportView {
            files: rows_view(self.files@),
            staged_files: rows_view(self.staged_files@),
            unstaged_files: rows_view(self.unstaged_files@),
            total_additions: self.total_additions as int,
            total_deletions: self.total_deletions as int,
        }
    }
}

/// The bits that say that the index differs from `HEAD`.
pub open spec fn index_bits() -> u32 {
    INDEX_NEW | INDEX_MODIFIED | INDEX_DELETED | INDEX_RENAMED | INDEX_TYPECHANGE
}

/// The bits that say that the working tree differs from the index.
pub open spec fn workdir_bits() -> u32 {
    WT_NEW | WT_MODIFIED | WT_DELETED | WT_RENAMED | WT_TYPECHANGE
}

/// The lines that count for one side: those given, where the side differs.
pub open spec fn counted(differs: bool, lines: int) -> int {
    if differs {
        lines
    } else {
        0
    }
}

/// The rows with one more, where there is one.
pub open spec fn with_row(rows: Seq<RowView>, row: Option<RowView>) -> Seq<RowView> {
    match row {
        Some(r) => rows.push(r),
        None => rows,
    }
}

/// The letter of a file as a whole.
pub open spec fn file_letter(bits: u32) -> Seq<char> {
    match workdir_letter(bits) {
        Some(w) => w,
        None => match index_letter(bits) {
            Some(i) => i,
            None => "--"@,
        },
    }
}

/// The report with one more file: a row among the staged files where the
/// index differs and has a letter, one among the unstaged files where the
/// working tree differs and has one, and one among all files, with the lines
/// of both sides together, where either side differs. The totals grow by the
/// lines of each side that differs. A file without a path changes nothing.
pub open spec fn recorded(
    report: ReportView,
    path: Seq<char>,
    bits: u32,
    staged: LineStats,
    unstaged: LineStats,
) -> ReportView {
    let in_index = has_any(bits, index_bits());
    let in_workdir = has_any(bits, workdir_bits());
    let additions = counted(in_index, staged.additions as int) + counted(
        in_workdir,
        unstaged.additions as int,
    );
    let deletions = counted(in_index, staged.deletions as int) + counted(
        in_workdir,
        unstaged.deletions as int,
    );
    if path.len() == 0 {
        report
    } else {
        ReportView {
            files: with_row(
                report.files,
                if in_index || in_workdir {
                    Some(
                        RowView {
                            path: git_path(path),
                            status: file_letter(bits),
                            additions,
                            deletions,
                        },
                    )
                } else {
                    None
                },
            ),
            staged_files: with_row(
                report.staged_files,
                if in_index && index_letter(bits) is Some {
                    Some(
                        RowView {
                            path: git_path(path),
                            status: index_letter(bits)->0,
                            additions: staged.additions as int,
                            deletions: staged.deletions as int,
                        },
                    )
                } else {
                    None
                },
            ),
            unstaged_files: with_row(
                report.unstaged_files,
                if in_workdir && workdir_letter(bits) is Some {
                    Some(
                        RowView {
                            path: git_path(path),
                            status: workdir_letter(bits)->0,
                            additions: unstaged.additions as int,
                            deletions: unstaged.deletions as int,
                        },
                    )
                } else {
                    None
                },
            ),
            total_additions: report.total_additions + additions,
            total_deletions: report.total_deletions + deletions,
        }
    }
}

/// Whether the sum is a number that an `i64` holds.
pub open spec fn fits(sum: int) -> bool {
    i64::MIN <= sum <= i64::MAX
}

/// Adds a row to a list.
fn push_row(rows: &mut Vec<GitFileStatus>, path: &str, status: &str, additions: i64, deletions: i64)
    ensures
        rows_view(final(rows)@) == rows_view(old(rows)@).push(
            RowView {
                path: git_path(path@),
                status: status@,
                additions: additions as int,
                deletions: deletions as int,
            },
        ),
{
    let row = GitFileStatus {
        path: normalize_git_path(path),
        status: status.to_owned(),
        additions,
        deletions,
    };
    rows.push(row);
}

impl StatusReport {
    /// A report without files.
    pub fn new() -> (report: StatusReport)
        ensures
            report@ == (ReportView {
                files: Seq::empty(),
                staged_files: Seq::empty(),
                unstaged_files: Seq::empty(),
                total_additions: 0,
                total_deletions: 0,
            }),
    {
        let report = StatusReport {
            files: Vec::new(),
            staged_files: Vec::new(),
            unstaged_files: Vec::new(),
            total_additions: 0,
            total_deletions: 0,
        };
        assert(report@.unstaged_files =~= Seq::empty());
        report
    }

    /// Whether the file can be recorded: the sums of its lines, and the
    /// totals with them, are numbers that an `i64` holds.
    pub open spec fn admits(self, bits: u32, staged: LineStats, unstaged: LineStats) -> bool {
        let in_index = has_any(bits, index_bits());
        let in_workdir = has_any(bits, workdir_bits());
        let additions = counted(in_index, staged.additions as int) + counted(
            in_workdir,
            unstaged.additions as int,
        );
        let deletions = counted(in_index, staged.deletions as int) + counted(
            in_workdir,
            unstaged.deletions as int,
        );
        &&& fits(additions)
        &&& fits(deletions)
        &&& fits(self.total_additions + counted(in_index, staged.additions as int))
        &&& fits(self.total_deletions + counted(in_index, staged.deletions as int))
        &&& fits(self.total_additions + additions)
        &&& fits(self.total_deletions + deletions)
    }

    /// Whether the file can be recorded, found out by trying the sums.
    pub fn can_record(&self, bits: u32, staged: LineStats, unstaged: LineStats) -> (yes: bool)
        ensures
            yes == self.admits(bits, staged, unstaged),
    {
        let zero = LineStats { additions: 0, deletions: 0 };
        let index = if includes_index(bits) {
            staged
        } else {
            zero
        };
        let workdir = if includes_workdir(bits) {
            unstaged
        } else {
            zero
        };
        let additions = index.additions.checked_add(workdir.additions);
        let deletions = index.deletions.checked_add(workdir.deletions);
        let staged_additions = self.total_additions.checked_add(index.additions);
        let staged_deletions = self.total_deletions.checked_add(index.deletions);
        match (additions, deletions, staged_additions, staged_deletions) {
            (Some(a), Some(d), Some(sa), Some(sd)) => sa.checked_add(workdir.additions).is_some()
                && sd.checked_add(workdir.deletions).is_some(),
            _ => false,
        }
    }

    /// Records one file of the status list, given its path, its status bits
    /// and the lines that each side adds and deletes.
    pub fn record(&mut self, path: &str, bits: u32, staged: LineStats, unstaged: LineStats)
        requires
            old(self).admits(bits, staged, unstaged),
        ensures
            final(self)@ == recorded(old(self)@, path@, bits, staged, unstaged),
    {
        let chars = to_chars(path);
        if chars.len() == 0 {
            return;
        }
        let in_index = includes_index(bits);
        let in_workdir = includes_workdir(bits);
        let mut additions: i64 = 0;
        let mut deletions: i64 = 0;
        if in_index {
            if let Some(letter) = status_for_index(bits) {
                push_row(&mut self.staged_files, path, letter, staged.additions, staged.deletions);
            }
            additions = additions + staged.additions;
            deletions = deletions + staged.deletions;
            self.total_additions = self.total_additions + staged.additions;
            self.total_deletions = self.total_deletions + staged.deletions;
        }
        if in_workdir {
            if let Some(letter) = status_for_workdir(bits) {
                push_row(
                    &mut self.unstaged_files,
                    path,
                    letter,
                    unstaged.additions,
                    unstaged.deletions,
                );
            }
            additions = additions + unstaged.additions;
            deletions = deletions + unstaged.deletions;
            self.total_additions = self.total_additions + unstaged.additions;
            self.total_deletions = self.total_deletions + unstaged.deletions;
        }
        if in_index || in_workdir {
            push_row(&mut self.files, path, status_for_file(bits), additions, deletions);
        }
    }
}

/// What is read of one entry of a diff.
#[derive(Clone, Copy, Debug, PartialEq, Eq)]
pub struct DiffPlan {
    /// Whether the entry is shown as an image.
    pub is_image: bool,
    /// Whether the lines of the old file are read.
    pub old_lines: bool,
    /// Whether the lines of the new file are read.
    pub new_lines: bool,
    /// Whether the old file is read as an image.
    pub old_image: bool,
    /// Whether the new file is read as an image.
    pub new_image: bool,
}

/// What is read of one entry of a diff: the old side unless the file was
/// added, the new side unless it was deleted; as an image where the path of
/// that side is an image's, and line by line where neither is.
pub fn diff_plan(status: Delta, old_is_image: bool, new_is_image: bool) -> (plan: DiffPlan)
    ensures
        plan.is_image == (old_is_image || new_is_image),
        plan.old_lines == (!(status is Added) && !plan.is_image),
        plan.new_lines == (!(status is Deleted) && !plan.is_image),
        plan.old_image == (!(status is Added) && old_is_image),
        plan.new_image == (!(status is Deleted) && new_is_image),
{
    let is_image = old_is_image || new_is_image;
    let added = match status {
        Delta::Added => true,
        _ => false,
    };
    let deleted = match status {
        Delta::Deleted => true,
        _ => false,
    };
    DiffPlan {
        is_image,
        old_lines: !added && !is_image,
        new_lines: !deleted && !is_image,
        old_image: !added && old_is_image,
        new_image: !deleted && new_is_image,
    }
}

/// The path that an entry of a diff is shown under: the new one, or the old
/// one where there is no new one.
pub fn display_path(old_path: Option<String>, new_path: Option<String>) -> (shown: Option<String>)
    ensures
        shown == match new_path {
            Some(path) => Some(path),
            None => old_path,
        },
{
    match new_path {
        Some(path) => Some(path),
        None => old_path,
    }
}

/// What becomes of one entry of a diff.
#[derive(Clone, Copy, Debug, PartialEq, Eq)]
pub enum EntryShape {
    /// It is shown as an image: binary, with no text of a patch and no lines.
    Image,
    /// It is shown as text, with its patch and its lines.
    Text,
    /// It is left out.
    Skipped,
}

/// What becomes of one entry of a diff, given what is read of it and the
/// text of its patch where one could be made: an image is shown as one
/// whatever its patch; another entry is shown as text where its patch holds
/// more than whitespace, and is left out where it holds none or there is no
/// patch.
pub fn entry_shape(plan: DiffPlan, patch: Option<&str>) -> (shape: EntryShape)
    ensures
        shape == if plan.is_image {
            EntryShape::Image
        } else {
            match patch {
                Some(text) => if trim(text@).len() == 0 {
                    EntryShape::Skipped
                } else {
                    EntryShape::Text
                },
                None => EntryShape::Skipped,
            }
        },
{
    if plan.is_image {
        return EntryShape::Image;
    }
    match patch {
        Some(text) => {
            let chars = to_chars(text);
            let trimmed = trim_chars(chars.as_slice());
            if trimmed.len() == 0 {
                EntryShape::Skipped
            } else {
                EntryShape::Text
            }
        },
        None => EntryShape::Skipped,
    }
}

} // verus!
