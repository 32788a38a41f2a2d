//! The decisions around a git working tree: what a status means, which
//! paths an action touches, which text is shown.
//!
//! The library opens no repository and runs no command. Its caller reads the
//! repository and hands over plain values: status bits, paths, the output of
//! a command.

use crate::text::{
    chars_eq, find_char, find_from, first_index, from_chars, has_prefix, lemma_first_index_is,
    push_text, slice_chars, starts_with, text_view, texts_of, to_chars, trim, trim_chars,
};
use vstd::prelude::*;

verus! {

/// The largest image that is shown, in bytes.
pub const MAX_IMAGE_BYTES: usize = 10 * 1024 * 1024;

/// The largest text that is compared line by line, in bytes.
pub const MAX_TEXT_DIFF_BYTES: usize = 2 * 1024 * 1024;

/// The bit of an index entry's extended flags that says "skip worktree".
pub const INDEX_SKIP_WORKTREE_FLAG: u16 = 0x4000;

/// How many leading bytes are looked at to tell text from binary.
pub const BINARY_PROBE_BYTES: usize = 8192;

/// The bits of a file's status, as libgit2 numbers them.
pub const INDEX_NEW: u32 = 0x1;

pub const INDEX_MODIFIED: u32 = 0x2;

pub const INDEX_DELETED: u32 = 0x4;

pub const INDEX_RENAMED: u32 = 0x8;

pub const INDEX_TYPECHANGE: u32 = 0x10;

pub const WT_NEW: u32 = 0x80;

pub const WT_MODIFIED: u32 = 0x100;

pub const WT_DELETED: u32 = 0x200;

pub const WT_TYPECHANGE: u32 = 0x400;

pub const WT_RENAMED: u32 = 0x800;

/// The standard base64 text of the bytes, with padding, as the `base64`
/// crate's `STANDARD` engine writes it.
pub uninterp spec fn base64_standard(data: Seq<u8>) -> Seq<char>;

/// Calls `Engine::encode` on `base64::engine::general_purpose::STANDARD`:
/// the text that [`base64_standard`] names. The engine panics where the
/// length of the text does not fit a `usize`, so the input is bounded.
#[verifier::external_body]
pub(crate) fn base64_encode(data: &[u8]) -> (text: String)
    requires
        data@.len() <= MAX_IMAGE_BYTES,
    ensures
        text@ == base64_standard(data@),
{
    base64::Engine::encode(&base64::engine::general_purpose::STANDARD, data)
}

/// Whether a zero byte stands among the first 8192 bytes.
pub open spec fn looks_binary(bytes: Seq<u8>) -> bool {
    exists|i: int| 0 <= i < bytes.len() && i < BINARY_PROBE_BYTES && bytes[i] == 0
}

/// Whether the bytes look like binary data rather than text.
pub fn bytes_look_binary(bytes: &[u8]) -> (binary: bool)
    ensures
        binary == looks_binary(bytes@),
{
    let mut i: usize = 0;
    while i < bytes.len() && i < BINARY_PROBE_BYTES
        invariant
            i <= bytes.len(),
            i <= BINARY_PROBE_BYTES,
            forall|j: int| 0 <= j < i ==> bytes@[j] != 0,
        decreases bytes.len() - i,
    {
        if bytes[i] == 0 {
            return true;
        }
        i += 1;
    }
    false
}

/// The base64 text of an image, or nothing where it is larger than
/// [`MAX_IMAGE_BYTES`].
pub fn encode_image_base64(data: &[u8]) -> (text: Option<String>)
    ensures
        text_view(text) == if data@.len() > MAX_IMAGE_BYTES {
            None
        } else {
            Some(base64_standard(data@))
        },
{
    if data.len() > MAX_IMAGE_BYTES {
        return None;
    }
    Some(base64_encode(data))
}

/// The base64 text of a blob of `size` bytes with this content, or nothing
/// where either is larger than [`MAX_IMAGE_BYTES`].
pub fn blob_to_base64(size: usize, content: &[u8]) -> (text: Option<String>)
    ensures
        text_view(text) == if size > MAX_IMAGE_BYTES || content@.len() > MAX_IMAGE_BYTES {
            None
        } else {
            Some(base64_standard(content@))
        },
{
    if size > MAX_IMAGE_BYTES {
        return None;
    }
    encode_image_base64(content)
}

/// The base64 text of an image file whose metadata give `length` bytes, or
/// nothing where the metadata or the data say it is larger than
/// [`MAX_IMAGE_BYTES`].
pub fn read_image_base64(length: u64, data: &[u8]) -> (text: Option<String>)
    ensures
        text_view(text) == if length > MAX_IMAGE_BYTES || data@.len() > MAX_IMAGE_BYTES {
            None
        } else {
            Some(base64_standard(data@))
        },
{
    if length > MAX_IMAGE_BYTES as u64 {
        return None;
    }
    encode_image_base64(data)
}

/// Whether a file of this length is read as an image at all.
pub fn fits_image(length: u64) -> (fits: bool)
    ensures
        fits == (length <= MAX_IMAGE_BYTES),
{
    length <= MAX_IMAGE_BYTES as u64
}

/// Whether a file of this length is read as text at all.
pub fn fits_text(length: u64) -> (fits: bool)
    ensures
        fits == (length <= MAX_TEXT_DIFF_BYTES),
{
    length <= MAX_TEXT_DIFF_BYTES as u64
}

/// The name that a repository's current branch is shown under: `unknown`
/// where it has none.
pub fn branch_label(name: Option<&str>) -> (label: String)
    ensures
        label@ == match name {
            Some(text) => text@,
            None => "unknown"@,
        },
{
    match name {
        Some(text) => text.to_owned(),
        None => "unknown".to_owned(),
    }
}

/// The pieces of `s` cut after each `'\n'`, the line feed staying with the
/// piece before it.
pub open spec fn lines_with_endings(s: Seq<char>) -> Seq<Seq<char>>
    decreases s.len(),
{
    if s.len() == 0 {
        Seq::empty()
    } else {
        let i = find_char(s, '\n');
        if i >= s.len() {
            seq![s]
        } else {
            seq![s.take(i as int + 1)] + lines_with_endings(s.skip(i as int + 1))
        }
    }
}

/// The pieces in a row: all of them, one after the other.
pub open spec fn concat(pieces: Seq<Seq<char>>) -> Seq<char>
    decreases pieces.len(),
{
    if pieces.len() == 0 {
        Seq::empty()
    } else {
        pieces[0] + concat(pieces.skip(1))
    }
}

/// Cutting a text into lines with their endings loses nothing: the pieces in
/// a row are the text, and none of them is empty.
pub proof fn lemma_lines_with_endings_rebuild(s: Seq<char>)
    ensures
        concat(lines_with_endings(s)) == s,
        forall|k: int|
            0 <= k < lines_with_endings(s).len() ==> (#[trigger] lines_with_endings(s)[k]).len()
                > 0,
    decreases s.len(),
{
    if s.len() > 0 {
        crate::text::lemma_find_char_bound(s, '\n');
        let i = find_char(s, '\n');
        if i >= s.len() {
            let pieces = lines_with_endings(s);
            assert(concat(pieces.skip(1)) == Seq::<char>::empty());
        } else {
            let rest = s.skip(i as int + 1);
            lemma_lines_with_endings_rebuild(rest);
            let pieces = lines_with_endings(s);
            assert(pieces.skip(1) =~= lines_with_endings(rest));
        }
    }
}

/// The lines of a text, each with its line feed.
pub fn split_lines_preserving_newlines(content: &str) -> (pieces: Vec<String>)
    ensures
        texts_of(pieces@) == lines_with_endings(content@),
{
    let v = to_chars(content);
    let n = v.len();
    let mut pieces: Vec<String> = Vec::new();
    let mut start: usize = 0;
    assert(v@.skip(0) == v@);
    while start < n
        invariant
            start <= n == v.len(),
            v@ == content@,
            lines_with_endings(v@) == texts_of(pieces@) + lines_with_endings(
                v@.skip(start as int),
            ),
        decreases n - start,
    {
        let ghost rest = v@.skip(start as int);
        let at = find_from(v.as_slice(), start, '\n');
        let end = if at >= n {
            n
        } else {
            at + 1
        };
        let piece = slice_chars(v.as_slice(), start, end);
        assert(rest.take(end - start) == v@.subrange(start as int, end as int));
        assert(rest.skip(end - start) == v@.skip(end as int));
        push_text(&mut pieces, from_chars(piece.as_slice()));
        start = end;
    }
    pieces
}

/// The lines of a blob of `size` bytes that libgit2 does or does not take
/// for binary, `content` being its text: nothing where it is binary or
/// larger than [`MAX_TEXT_DIFF_BYTES`].
pub fn blob_to_lines(size: usize, is_binary: bool, content: &str) -> (pieces: Option<Vec<String>>)
    ensures
        match pieces {
            Some(rows) => size <= MAX_TEXT_DIFF_BYTES && !is_binary && texts_of(rows@)
                == lines_with_endings(content@),
            None => size > MAX_TEXT_DIFF_BYTES || is_binary,
        },
{
    if size > MAX_TEXT_DIFF_BYTES || is_binary {
        return None;
    }
    Some(split_lines_preserving_newlines(content))
}

/// Whether a file of `length` bytes with these data is compared line by
/// line: it is not where it is larger than [`MAX_TEXT_DIFF_BYTES`] or looks
/// binary.
pub fn is_text_file(length: u64, data: &[u8]) -> (yes: bool)
    ensures
        yes == (length <= MAX_TEXT_DIFF_BYTES && !looks_binary(data@)),
{
    if length > MAX_TEXT_DIFF_BYTES as u64 {
        return false;
    }
    !bytes_look_binary(data)
}

/// A path as git writes it: with `/` in place of every `\`.
pub open spec fn git_path(path: Seq<char>) -> Seq<char> {
    path.map_values(
        |c: char|
            if c == '\\' {
                '/'
            } else {
                c
            },
    )
}

/// A path as git writes it.
pub fn normalize_git_chars(path: &[char]) -> (out: Vec<char>)
    ensures
        out@ == git_path(path@),
{
    let mut out: Vec<char> = Vec::new();
    let mut i: usize = 0;
    while i < path.len()
        invariant
            i <= path.len(),
            out@ == git_path(path@.take(i as int)),
        decreases path.len() - i,
    {
        let c = path[i];
        out.push(
            if c == '\\' {
                '/'
            } else {
                c
            },
        );
        i += 1;
    }
    out
}

/// A path as git writes it.
pub fn normalize_git_path(path: &str) -> (out: String)
    ensures
        out@ == git_path(path@),
{
    let chars = to_chars(path);
    let out = normalize_git_chars(chars.as_slice());
    from_chars(out.as_slice())
}

/// The remote and the branch that the name of an upstream reference gives:
/// `refs/remotes/` at its front is left out, what stands before the first
/// `/` is the remote and what follows it the branch; nothing where either
/// would be empty or there is no `/`.
pub open spec fn upstream_of(name: Seq<char>) -> Option<(Seq<char>, Seq<char>)> {
    let rest = if starts_with(name, "refs/remotes/"@) {
        name.skip("refs/remotes/"@.len() as int)
    } else {
        name
    };
    let at = find_char(rest, '/');
    if at >= rest.len() || at == 0 || at + 1 >= rest.len() {
        None
    } else {
        Some((rest.take(at as int), rest.skip(at as int + 1)))
    }
}

/// The remote and the branch of an upstream reference.
pub fn parse_upstream_ref(name: &str) -> (parts: Option<(String, String)>)
    ensures
        match parts {
            Some((remote, branch)) => upstream_of(name@) == Some((remote@, branch@)),
            None => upstream_of(name@) is None,
        },
{
    let chars = to_chars(name);
    let prefix = to_chars("refs/remotes/");
    let rest = if has_prefix(chars.as_slice(), prefix.as_slice()) {
        let tail = slice_chars(chars.as_slice(), prefix.len(), chars.len());
        tail
    } else {
        chars
    };
    assert(rest@.skip(0) == rest@);
    let at = find_from(rest.as_slice(), 0, '/');
    if at >= rest.len() || at == 0 || at + 1 >= rest.len() {
        return None;
    }
    let remote = slice_chars(rest.as_slice(), 0, at);
    let branch = slice_chars(rest.as_slice(), at + 1, rest.len());
    Some((from_chars(remote.as_slice()), from_chars(branch.as_slice())))
}

/// Whether the status holds every bit of `flag`.
pub open spec fn has(bits: u32, flag: u32) -> bool {
    bits & flag == flag
}

/// Whether the status holds one of the bits of `flags`.
pub open spec fn has_any(bits: u32, flags: u32) -> bool {
    bits & flags != 0
}

/// The letter for what happened to a file in the index: added, modified,
/// deleted, renamed, type changed, in that order of precedence.
pub open spec fn index_letter(bits: u32) -> Option<Seq<char>> {
    if has(bits, INDEX_NEW) {
        Some("A"@)
    } else if has(bits, INDEX_MODIFIED) {
        Some("M"@)
    } else if has(bits, INDEX_DELETED) {
        Some("D"@)
    } else if has(bits, INDEX_RENAMED) {
        Some("R"@)
    } else if has(bits, INDEX_TYPECHANGE) {
        Some("T"@)
    } else {
        None
    }
}

/// The letter for what happened to a file in the working tree.
pub open spec fn workdir_letter(bits: u32) -> Option<Seq<char>> {
    if has(bits, WT_NEW) {
        Some("A"@)
    } else if has(bits, WT_MODIFIED) {
        Some("M"@)
    } else if has(bits, WT_DELETED) {
        Some("D"@)
    } else if has(bits, WT_RENAMED) {
        Some("R"@)
    } else if has(bits, WT_TYPECHANGE) {
        Some("T"@)
    } else {
        None
    }
}

/// The characters of an optional string slice.
pub open spec fn str_view(text: Option<&'static str>) -> Option<Seq<char>> {
    match text {
        Some(t) => Some(t@),
        None => None,
    }
}

/// The letter for what happened to a file in the index.
pub fn status_for_index(bits: u32) -> (letter: Option<&'static str>)
    ensures
        str_view(letter) == index_letter(bits),
{
    if bits & INDEX_NEW == INDEX_NEW {
        Some("A")
    } else if bits & INDEX_MODIFIED == INDEX_MODIFIED {
        Some("M")
    } else if bits & INDEX_DELETED == INDEX_DELETED {
        Some("D")
    } else if bits & INDEX_RENAMED == INDEX_RENAMED {
        Some("R")
    } else if bits & INDEX_TYPECHANGE == INDEX_TYPECHANGE {
        Some("T")
    } else {
        None
    }
}

/// The letter for what happened to a file in the working tree.
pub fn status_for_workdir(bits: u32) -> (letter: Option<&'static str>)
    ensures
        str_view(letter) == workdir_letter(bits),
{
    if bits & WT_NEW == WT_NEW {
        Some("A")
    } else if bits & WT_MODIFIED == WT_MODIFIED {
        Some("M")
    } else if bits & WT_DELETED == WT_DELETED {
        Some("D")
    } else if bits & WT_RENAMED == WT_RENAMED {
        Some("R")
    } else if bits & WT_TYPECHANGE == WT_TYPECHANGE {
        Some("T")
    } else {
        None
    }
}

/// Whether the status says that the index differs from `HEAD`.
pub fn includes_index(bits: u32) -> (yes: bool)
    ensures
        yes == has_any(
            bits,
            INDEX_NEW | INDEX_MODIFIED | INDEX_DELETED | INDEX_RENAMED | INDEX_TYPECHANGE,
        ),
{
    bits & (INDEX_NEW | INDEX_MODIFIED | INDEX_DELETED | INDEX_RENAMED | INDEX_TYPECHANGE) != 0
}

/// Whether the status says that the working tree differs from the index.
pub fn includes_workdir(bits: u32) -> (yes: bool)
    ensures
        yes == has_any(bits, WT_NEW | WT_MODIFIED | WT_DELETED | WT_RENAMED | WT_TYPECHANGE),
{
    bits & (WT_NEW | WT_MODIFIED | WT_DELETED | WT_RENAMED | WT_TYPECHANGE) != 0
}

/// The letter shown for a file as a whole: the working tree's where it has
/// one, else the index's, else `--`.
pub fn status_for_file(bits: u32) -> (letter: &'static str)
    ensures
        letter@ == match workdir_letter(bits) {
            Some(w) => w,
            None => match index_letter(bits) {
                Some(i) => i,
                None => "--"@,
            },
        },
{
    match status_for_workdir(bits) {
        Some(w) => w,
        None => match status_for_index(bits) {
            Some(i) => i,
            None => "--",
        },
    }
}

/// Whether an index entry is marked "skip worktree".
pub fn skips_worktree(flags_extended: u16) -> (yes: bool)
    ensures
        yes == (flags_extended & INDEX_SKIP_WORKTREE_FLAG != 0),
{
    flags_extended & INDEX_SKIP_WORKTREE_FLAG != 0
}

/// What happened to a file between two trees.
#[derive(Clone, Copy, Debug, PartialEq, Eq)]
pub enum Delta {
    Unmodified,
    Added,
    Deleted,
    Modified,
    Renamed,
    Copied,
    Ignored,
    Untracked,
    Typechange,
    Unreadable,
    Conflicted,
}

/// The letter for what happened to a file between two trees; `M` for what
/// has no letter of its own.
pub fn status_for_delta(status: Delta) -> (letter: &'static str)
    ensures
        letter@ == match status {
            Delta::Added => "A"@,
            Delta::Deleted => "D"@,
            Delta::Renamed => "R"@,
            Delta::Typechange => "T"@,
            _ => "M"@,
        },
{
    match status {
        Delta::Added => "A",
        Delta::Modified => "M",
        Delta::Deleted => "D",
        Delta::Renamed => "R",
        Delta::Typechange => "T",
        _ => "M",
    }
}

/// How deep the search for repositories goes: two levels where nothing is
/// asked for, and never less than one or more than six.
pub fn scan_depth(depth: Option<usize>) -> (levels: usize)
    ensures
        levels == match depth {
            Some(asked) => if asked < 1 {
                1
            } else if asked > 6 {
                6
            } else {
                asked
            },
            None => 2,
        },
{
    match depth {
        Some(asked) => if asked < 1 {
            1
        } else if asked > 6 {
            6
        } else {
            asked
        },
        None => 2,
    }
}

/// How many commits of the log are listed: forty where nothing is asked for.
pub fn log_limit(limit: Option<usize>) -> (items: usize)
    ensures
        items == match limit {
            Some(asked) => asked,
            None => 40,
        },
{
    match limit {
        Some(asked) => asked,
        None => 40,
    }
}

/// What a failed command has to say: its error output, trimmed, or else its
/// output, trimmed, or else `fallback`.
pub open spec fn failure_detail(stdout: Seq<char>, stderr: Seq<char>, fallback: Seq<char>) -> Seq<
    char,
> {
    let detail = if trim(stderr).len() == 0 {
        trim(stdout)
    } else {
        trim(stderr)
    };
    if detail.len() == 0 {
        fallback
    } else {
        detail
    }
}

/// What a failed command has to say.
pub fn command_failure(stdout: &str, stderr: &str, fallback: &str) -> (detail: String)
    ensures
        detail@ == failure_detail(stdout@, stderr@, fallback@),
{
    let err_chars = to_chars(stderr);
    let err = trim_chars(err_chars.as_slice());
    let detail = if err.len() == 0 {
        let out_chars = to_chars(stdout);
        trim_chars(out_chars.as_slice())
    } else {
        err
    };
    if detail.len() == 0 {
        let fallback_chars = to_chars(fallback);
        from_chars(fallback_chars.as_slice())
    } else {
        from_chars(detail.as_slice())
    }
}

/// The result of a command that has run: its failure is reported with what
/// it has to say.
pub fn command_result(success: bool, stdout: &str, stderr: &str, fallback: &str) -> (result: Result<
    (),
    String,
>)
    ensures
        match result {
            Ok(_) => success,
            Err(detail) => !success && detail@ == failure_detail(stdout@, stderr@, fallback@),
        },
{
    if success {
        Ok(())
    } else {
        Err(command_failure(stdout, stderr, fallback))
    }
}

/// The result of a git command that has run.
pub fn run_git_command(success: bool, stdout: &str, stderr: &str) -> (result: Result<(), String>)
    ensures
        match result {
            Ok(_) => success,
            Err(detail) => !success && detail@ == failure_detail(
                stdout@,
                stderr@,
                "Git command failed."@,
            ),
        },
{
    command_result(success, stdout, stderr, "Git command failed.")
}

/// The result of a GitHub CLI command that has run.
pub fn run_gh_command(success: bool, stdout: &str, stderr: &str) -> (result: Result<(), String>)
    ensures
        match result {
            Ok(_) => success,
            Err(detail) => !success && detail@ == failure_detail(
                stdout@,
                stderr@,
                "GitHub CLI command failed."@,
            ),
        },
{
    command_result(success, stdout, stderr, "GitHub CLI command failed.")
}

/// Whether a path is left out of a listing as ignored, all answers given.
pub open spec fn is_skipped(
    versioned: bool,
    listed: Option<bool>,
    checked: Option<bool>,
    ignored_by_rules: bool,
    ignored_parent: bool,
) -> bool {
    if versioned {
        false
    } else {
        match listed {
            Some(ignored) => ignored,
            None => match checked {
                Some(ignored) => ignored,
                None => ignored_by_rules || ignored_parent,
            },
        }
    }
}

/// Whether a path is left out of a listing as ignored: never where git
/// has it under version control; else as the list of ignored paths says, where there is one;
/// else as `git check-ignore` said, where it answered; else as the
/// repository's own rules say of the path or of a directory above it.
pub fn should_skip_ignored_path_with_cache(
    versioned: bool,
    listed: Option<bool>,
    checked: Option<bool>,
    ignored_by_rules: bool,
    ignored_parent: bool,
) -> (skip: bool)
    ensures
        skip == is_skipped(versioned, listed, checked, ignored_by_rules, ignored_parent),
{
    if versioned {
        return false;
    }
    if let Some(ignored) = listed {
        return ignored;
    }
    if let Some(ignored) = checked {
        return ignored;
    }
    ignored_by_rules || ignored_parent
}

/// What is done next to find out whether a path is left out as ignored.
#[derive(Clone, Copy, Debug, PartialEq, Eq)]
pub enum IgnoreStep {
    /// The answer is known: the path is left out, or it is not.
    Skip(bool),
    /// `git check-ignore` is to be asked about the path.
    AskGit,
    /// The repository's own rules are to be asked about the path.
    AskRules,
    /// The rules are to be asked about the directories above the path; what
    /// they say is the answer.
    AskParents,
}

/// The step that follows from what is known so far.
pub open spec fn ignore_step(
    versioned: bool,
    listed: Option<bool>,
    asked_git: Option<Option<bool>>,
    by_rules: Option<bool>,
) -> IgnoreStep {
    if versioned {
        IgnoreStep::Skip(false)
    } else if listed is Some {
        IgnoreStep::Skip(listed->0)
    } else {
        match asked_git {
            None => IgnoreStep::AskGit,
            Some(Some(ignored)) => IgnoreStep::Skip(ignored),
            Some(None) => match by_rules {
                None => IgnoreStep::AskRules,
                Some(true) => IgnoreStep::Skip(true),
                Some(false) => IgnoreStep::AskParents,
            },
        }
    }
}

/// Where the steps lead, the answers being what they are: `checked` is what
/// `git check-ignore` says, `ignored_by_rules` what the rules say of the
/// path, and `ignored_parent` what they say of the directories above it.
pub open spec fn answer_by_steps(
    versioned: bool,
    listed: Option<bool>,
    checked: Option<bool>,
    ignored_by_rules: bool,
    ignored_parent: bool,
) -> bool {
    match ignore_step(versioned, listed, None, None) {
        IgnoreStep::Skip(skip) => skip,
        _ => match ignore_step(versioned, listed, Some(checked), None) {
            IgnoreStep::Skip(skip) => skip,
            _ => match ignore_step(versioned, listed, Some(checked), Some(ignored_by_rules)) {
                IgnoreStep::Skip(skip) => skip,
                _ => ignored_parent,
            },
        },
    }
}

/// Asking one question after the other comes to the answer that all the
/// answers together give.
pub proof fn lemma_ignore_steps_agree(
    versioned: bool,
    listed: Option<bool>,
    checked: Option<bool>,
    ignored_by_rules: bool,
    ignored_parent: bool,
)
    ensures
        answer_by_steps(versioned, listed, checked, ignored_by_rules, ignored_parent) == is_skipped(
            versioned,
            listed,
            checked,
            ignored_by_rules,
            ignored_parent,
        ),
{
}

/// What is done next for a path, given what is known so far: whether git
/// has it under version control, what the list of ignored paths says where
/// there is one, what `git check-ignore` said where it was asked (nothing
/// where it could not answer), and what the repository's rules said of the
/// path where they were asked. Each question is asked only where those
/// before it left the answer open.
pub fn next_ignore_step(
    versioned: bool,
    listed: Option<bool>,
    asked_git: Option<Option<bool>>,
    by_rules: Option<bool>,
) -> (step: IgnoreStep)
    ensures
        step == ignore_step(versioned, listed, asked_git, by_rules),
{
    if versioned {
        return IgnoreStep::Skip(false);
    }
    if let Some(ignored) = listed {
        return IgnoreStep::Skip(ignored);
    }
    match asked_git {
        None => IgnoreStep::AskGit,
        Some(Some(ignored)) => IgnoreStep::Skip(ignored),
        Some(None) => match by_rules {
            None => IgnoreStep::AskRules,
            Some(true) => IgnoreStep::Skip(true),
            Some(false) => IgnoreStep::AskParents,
        },
    }
}

/// Whether `git check-ignore` ran to an end that can be read: it exits with
/// 0 where a path is ignored and with 1 where none is.
pub fn check_ignore_succeeded(code: Option<i32>) -> (ok: bool)
    ensures
        ok == (code == Some(0i32) || code == Some(1i32)),
{
    match code {
        Some(0) => true,
        Some(1) => true,
        _ => false,
    }
}

/// An entry of the status list that may be a rename: its status bits, and
/// the paths of its delta where it has them.
#[derive(Clone, Debug, PartialEq, Eq)]
pub struct StatusDelta {
    pub bits: u32,
    pub old_path: Option<String>,
    pub new_path: Option<String>,
}

/// Whether the entry is a rename from or to `target`.
pub open spec fn renames(entry: StatusDelta, target: Seq<char>) -> bool {
    &&& has(entry.bits, WT_RENAMED) || has(entry.bits, INDEX_RENAMED)
    &&& entry.old_path is Some
    &&& entry.new_path is Some
    &&& git_path(entry.old_path->0@) == target || git_path(entry.new_path->0@) == target
}

/// The paths that an action on `path` is to name: the path itself, trimmed
/// and as git writes it; but for a file that was renamed from or to it, the
/// old path and the new one, as the first such entry of the status list gives
/// them. Nothing where the path is blank, and the path alone where the
/// status list could not be had.
pub open spec fn action_paths(path: Seq<char>, entries: Option<Seq<StatusDelta>>) -> Seq<Seq<char>> {
    let target = trim(git_path(path));
    if target.len() == 0 {
        Seq::empty()
    } else {
        match entries {
            None => seq![target],
            Some(list) => {
                let at = first_index(list, |entry: StatusDelta| renames(entry, target));
                if at >= list.len() {
                    seq![target]
                } else {
                    let old_path = git_path(list[at as int].old_path->0@);
                    let new_path = git_path(list[at as int].new_path->0@);
                    if old_path == new_path || new_path.len() == 0 {
                        seq![target]
                    } else if old_path.len() == 0 {
                        seq![new_path]
                    } else {
                        seq![old_path, new_path]
                    }
                }
            },
        }
    }
}

/// The list with the one text in it.
fn one_text(text: &[char]) -> (list: Vec<String>)
    ensures
        texts_of(list@) == seq![text@],
{
    let mut list: Vec<String> = Vec::new();
    list.push(from_chars(text));
    list
}

/// The old and the new path of the entry, as git writes them, where the
/// entry is a rename from or to `target`.
fn rename_of(entry: &StatusDelta, target: &[char]) -> (paths: Option<(Vec<char>, Vec<char>)>)
    ensures
        match paths {
            Some((old_path, new_path)) => renames(*entry, target@) && old_path@ == git_path(
                entry.old_path->0@,
            ) && new_path@ == git_path(entry.new_path->0@),
            None => !renames(*entry, target@),
        },
{
    if !(entry.bits & WT_RENAMED == WT_RENAMED || entry.bits & INDEX_RENAMED == INDEX_RENAMED) {
        return None;
    }
    match (&entry.old_path, &entry.new_path) {
        (Some(before), Some(after)) => {
            let before_chars = to_chars(before.as_str());
            let after_chars = to_chars(after.as_str());
            let old_path = normalize_git_chars(before_chars.as_slice());
            let new_path = normalize_git_chars(after_chars.as_slice());
            if chars_eq(old_path.as_slice(), target) || chars_eq(new_path.as_slice(), target) {
                Some((old_path, new_path))
            } else {
                None
            }
        },
        _ => None,
    }
}

/// The paths that an action on `path` is to name, `entries` being the
/// repository's status list, or nothing where it could not be had.
pub fn action_paths_for_file(path: &str, entries: Option<&Vec<StatusDelta>>) -> (paths: Vec<String>)
    ensures
        texts_of(paths@) == action_paths(
            path@,
            match entries {
                Some(list) => Some(list@),
                None => None,
            },
        ),
{
    let chars = to_chars(path);
    let normal = normalize_git_chars(chars.as_slice());
    let target = trim_chars(normal.as_slice());
    if target.len() == 0 {
        let paths: Vec<String> = Vec::new();
        return paths;
    }
    let list = match entries {
        Some(list) => list,
        None => {
            return one_text(target.as_slice());
        },
    };
    let mut i: usize = 0;
    while i < list.len()
        invariant
            i <= list.len(),
            entries == Some(list),
            target@ == trim(git_path(path@)),
            target@.len() > 0,
            forall|j: int| 0 <= j < i ==> !renames(#[trigger] list@[j], target@),
        decreases list.len() - i,
    {
        match rename_of(&list[i], target.as_slice()) {
            Some((old_path, new_path)) => {
                proof {
                    let p = |entry: StatusDelta| renames(entry, target@);
                    lemma_first_index_is(list@, p, i as int);
                }
                if chars_eq(old_path.as_slice(), new_path.as_slice()) || new_path.len() == 0 {
                    return one_text(target.as_slice());
                }
                let mut paths: Vec<String> = Vec::new();
                if old_path.len() > 0 {
                    paths.push(from_chars(old_path.as_slice()));
                }
                paths.push(from_chars(new_path.as_slice()));
                return paths;
            },
            None => {},
        }
        i += 1;
    }
    proof {
        let p = |entry: StatusDelta| renames(entry, target@);
        lemma_first_index_is(list@, p, i as int);
    }
    one_text(target.as_slice())
}

/// Whether the remote is called `origin`.
pub open spec fn is_origin(name: Option<String>) -> bool {
    match name {
        Some(text) => text@ == "origin"@,
        None => false,
    }
}

/// Whether one of the remotes is called `origin`.
pub open spec fn has_origin(names: Seq<Option<String>>) -> bool {
    exists|i: int| 0 <= i < names.len() && is_origin(#[trigger] names[i])
}

/// The remote that stands for the repository: `origin` where there is one,
/// else the first that has a name; nothing where that name is empty or no
/// remote has one.
pub open spec fn default_remote(names: Seq<Option<String>>) -> Option<Seq<char>> {
    if has_origin(names) {
        Some("origin"@)
    } else {
        let at = first_index(names, |name: Option<String>| name is Some);
        if at < names.len() && names[at as int]->0@.len() > 0 {
            Some(names[at as int]->0@)
        } else {
            None
        }
    }
}

/// The remote that stands for the repository.
pub fn pick_remote(names: &Vec<Option<String>>) -> (remote: Option<String>)
    ensures
        text_view(remote) == default_remote(names@),
{
    let mut i: usize = 0;
    while i < names.len()
        invariant
            i <= names.len(),
            forall|j: int|
                0 <= j < i ==> !is_origin(#[trigger] names@[j]),
        decreases names.len() - i,
    {
        if let Some(name) = &names[i] {
            if crate::text::str_eq(name.as_str(), "origin") {
                return Some(name.clone());
            }
        }
        i += 1;
    }
    let mut at: usize = 0;
    while at < names.len() && names[at].is_none()
        invariant
            at <= names.len(),
            forall|j: int| 0 <= j < at ==> !(#[trigger] names@[j] is Some),
        decreases names.len() - at,
    {
        at += 1;
    }
    proof {
        let p = |name: Option<String>| name is Some;
        lemma_first_index_is(names@, p, at as int);
    }
    if at < names.len() {
        match &names[at] {
            Some(name) => {
                let chars = to_chars(name.as_str());
                if chars.len() > 0 {
                    return Some(name.clone());
                }
            },
            None => {},
        }
    }
    None
}

/// The remote of a repository, or the reason why it has none that can be
/// used.
pub fn github_repo_remote(names: &Vec<Option<String>>) -> (remote: Result<String, String>)
    ensures
        match remote {
            Ok(name) => default_remote(names@) == Some(name@),
            Err(why) => default_remote(names@) is None && why@ == "No git remote configured."@,
        },
{
    match pick_remote(names) {
        Some(name) => Ok(name),
        None => Err("No git remote configured.".to_owned()),
    }
}

/// The index of the first zero byte, or the length where there is none.
pub open spec fn find_zero(bytes: Seq<u8>) -> nat {
    first_index(bytes, |b: u8| b == 0)
}

/// The pieces of `bytes` between zero bytes, without the empty ones.
pub open spec fn zero_separated(bytes: Seq<u8>) -> Seq<Seq<u8>>
    decreases bytes.len(),
{
    if bytes.len() == 0 {
        Seq::empty()
    } else {
        let at = find_zero(bytes) as int;
        if at >= bytes.len() {
            seq![bytes]
        } else if at == 0 {
            zero_separated(bytes.skip(1))
        } else {
            seq![bytes.take(at)] + zero_separated(bytes.skip(at + 1))
        }
    }
}

/// The values of a list of byte strings.
pub open spec fn bytes_of(pieces: Seq<Vec<u8>>) -> Seq<Seq<u8>> {
    pieces.map_values(|piece: Vec<u8>| piece@)
}

/// The paths that `git check-ignore -z` wrote: what stands between the zero
/// bytes of its output, as bytes.
pub fn ignored_paths_in_output(stdout: &[u8]) -> (paths: Vec<Vec<u8>>)
    ensures
        bytes_of(paths@) == zero_separated(stdout@),
{
    let n = stdout.len();
    let mut paths: Vec<Vec<u8>> = Vec::new();
    let mut start: usize = 0;
    assert(stdout@.skip(0) == stdout@);
    while start < n
        invariant
            start <= n == stdout.len(),
            zero_separated(stdout@) == bytes_of(paths@) + zero_separated(stdout@.skip(start as int)),
        decreases n - start,
    {
        let ghost rest = stdout@.skip(start as int);
        let mut at: usize = start;
        while at < n && stdout[at] != 0
            invariant
                start <= at <= n == stdout.len(),
                forall|j: int| start <= j < at ==> stdout@[j] != 0,
            decreases n - at,
        {
            at += 1;
        }
        proof {
            let p = |b: u8| b == 0;
            lemma_first_index_is(rest, p, at - start);
        }
        if at > start {
            let mut piece: Vec<u8> = Vec::new();
            let mut k: usize = start;
            while k < at
                invariant
                    start <= k <= at <= n == stdout.len(),
                    piece@ == stdout@.subrange(start as int, k as int),
                decreases at - k,
            {
                piece.push(stdout[k]);
                k += 1;
            }
            assert(rest.take(at - start) == stdout@.subrange(start as int, at as int));
            paths.push(piece);
        }
        if at < n {
            assert(rest.skip(at - start + 1) == stdout@.skip(at + 1));
            start = at + 1;
        } else {
            start = n;
        }
    }
    paths
}

} // verus!
