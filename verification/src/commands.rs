//! Which commands are run for an action on a repository, and what follows
//! from how they end.
//!
//! The library runs nothing. It says which arguments `git` or `gh` is to be
//! run with, and, given how a run ended, what is to be done next.

use crate::rpc::{decimal, push_decimal};
use crate::text::{
    append_chars, contains, contains_chars, from_chars, push_text, texts_of, to_chars,
};
use vstd::prelude::*;

verus! {

/// What `str::to_lowercase` makes of a text: its lowercase by the rules of
/// Unicode.
pub uninterp spec fn unicode_lower(s: Seq<char>) -> Seq<char>;

/// `str::to_lowercase` returns the lowercase of the string as a new string:
/// the one that [`unicode_lower`] names.
pub assume_specification[ str::to_lowercase ](s: &str) -> (lower: String)
    ensures
        lower@ == unicode_lower(s@),
;

/// One way of pulling.
#[derive(Clone, Copy, Debug, PartialEq, Eq, Structural)]
pub enum PullAttempt {
    /// `git pull --autostash`
    Autostash,
    /// `git pull`
    Plain,
    /// `git pull --no-rebase --autostash`
    MergeAutostash,
    /// `git pull --no-rebase`
    Merge,
}

/// What is to be done after an attempt to pull.
#[derive(Debug, PartialEq, Eq)]
pub enum PullStep {
    /// The pull is over, with this result.
    Done(Result<(), String>),
    /// Git is to be run again, in this way.
    Retry(PullAttempt),
}

/// Whether the lowercase of an error says that this git knows no
/// `--autostash`.
pub open spec fn lacks_autostash(lower: Seq<char>) -> bool {
    contains(lower, "unknown option"@) && contains(lower, "autostash"@)
}

/// Whether the lowercase of an error says that the branches have diverged
/// and git was not told how to bring them together.
pub open spec fn wants_strategy(lower: Seq<char>) -> bool {
    contains(lower, "need to specify how to reconcile divergent branches"@) || contains(
        lower,
        "you have divergent branches"@,
    )
}

/// The attempt that follows one that failed with `error`, if another is
/// worth making: without `--autostash` where git does not know it, with
/// `--no-rebase` where git wants a strategy.
pub open spec fn next_attempt(attempt: PullAttempt, error: Seq<char>) -> Option<PullAttempt> {
    let lower = unicode_lower(error);
    match attempt {
        PullAttempt::Autostash => if lacks_autostash(lower) {
            Some(PullAttempt::Plain)
        } else if wants_strategy(lower) {
            Some(PullAttempt::MergeAutostash)
        } else {
            None
        },
        PullAttempt::Plain => if wants_strategy(lower) {
            Some(PullAttempt::Merge)
        } else {
            None
        },
        PullAttempt::MergeAutostash => if lacks_autostash(lower) {
            Some(PullAttempt::Merge)
        } else {
            None
        },
        PullAttempt::Merge => None,
    }
}

/// How far down the line of attempts one stands.
pub open spec fn attempt_rank(attempt: PullAttempt) -> nat {
    match attempt {
        PullAttempt::Autostash => 0,
        PullAttempt::Plain => 1,
        PullAttempt::MergeAutostash => 1,
        PullAttempt::Merge => 2,
    }
}

/// The attempts come to an end: each one that follows another stands
/// further down the line, so git is run at most three times for one pull.
pub proof fn lemma_pull_attempts_end(attempt: PullAttempt, error: Seq<char>)
    ensures
        next_attempt(attempt, error) matches Some(next) ==> attempt_rank(attempt) < attempt_rank(
            next,
        ) <= 2,
{
}

/// Whether the lowercase of an error says that this git knows no
/// `--autostash`.
pub fn autostash_unsupported(lower: &str) -> (yes: bool)
    ensures
        yes == lacks_autostash(lower@),
{
    let text = to_chars(lower);
    let option = to_chars("unknown option");
    let autostash = to_chars("autostash");
    contains_chars(text.as_slice(), option.as_slice()) && contains_chars(
        text.as_slice(),
        autostash.as_slice(),
    )
}

/// Whether the lowercase of an error says that git wants a strategy.
pub fn needs_reconcile_strategy(lower: &str) -> (yes: bool)
    ensures
        yes == wants_strategy(lower@),
{
    let text = to_chars(lower);
    let need = to_chars("need to specify how to reconcile divergent branches");
    let have = to_chars("you have divergent branches");
    contains_chars(text.as_slice(), need.as_slice()) || contains_chars(
        text.as_slice(),
        have.as_slice(),
    )
}

/// The attempt that follows one that failed with this error in lowercase.
pub fn attempt_after(attempt: PullAttempt, lower: &str) -> (next: Option<PullAttempt>)
    ensures
        next == match attempt {
            PullAttempt::Autostash => if lacks_autostash(lower@) {
                Some(PullAttempt::Plain)
            } else if wants_strategy(lower@) {
                Some(PullAttempt::MergeAutostash)
            } else {
                None
            },
            PullAttempt::Plain => if wants_strategy(lower@) {
                Some(PullAttempt::Merge)
            } else {
                None
            },
            PullAttempt::MergeAutostash => if lacks_autostash(lower@) {
                Some(PullAttempt::Merge)
            } else {
                None
            },
            PullAttempt::Merge => None,
        },
{
    match attempt {
        PullAttempt::Autostash => if autostash_unsupported(lower) {
            Some(PullAttempt::Plain)
        } else if needs_reconcile_strategy(lower) {
            Some(PullAttempt::MergeAutostash)
        } else {
            None
        },
        PullAttempt::Plain => if needs_reconcile_strategy(lower) {
            Some(PullAttempt::Merge)
        } else {
            None
        },
        PullAttempt::MergeAutostash => if autostash_unsupported(lower) {
            Some(PullAttempt::Merge)
        } else {
            None
        },
        PullAttempt::Merge => None,
    }
}

/// What is to be done after `attempt` ended with `outcome`: a success ends
/// the pull, and so does a failure that no other attempt answers.
pub fn pull_with_default_strategy(attempt: PullAttempt, outcome: Result<(), String>) -> (step:
    PullStep)
    ensures
        match outcome {
            Ok(_) => step matches PullStep::Done(Ok(_)),
            Err(error) => match next_attempt(attempt, error@) {
                Some(next) => step == PullStep::Retry(next),
                None => step matches PullStep::Done(Err(reported)) && reported@ == error@,
            },
        },
{
    match outcome {
        Ok(_) => PullStep::Done(Ok(())),
        Err(error) => {
            let lower = error.as_str().to_lowercase();
            match attempt_after(attempt, lower.as_str()) {
                Some(next) => PullStep::Retry(next),
                None => PullStep::Done(Err(error)),
            }
        },
    }
}

/// The list of the given words.
fn words(first: &str, second: Option<&str>, third: Option<&str>) -> (list: Vec<String>)
    ensures
        texts_of(list@) == seq![first@] + match second {
            Some(word) => seq![word@],
            None => Seq::empty(),
        } + match third {
            Some(word) => seq![word@],
            None => Seq::empty(),
        },
{
    let mut list: Vec<String> = Vec::new();
    push_text(&mut list, first.to_owned());
    if let Some(word) = second {
        push_text(&mut list, word.to_owned());
    }
    if let Some(word) = third {
        push_text(&mut list, word.to_owned());
    }
    list
}

/// The arguments that git is run with for an attempt to pull.
pub fn pull_arguments(attempt: PullAttempt) -> (arguments: Vec<String>)
    ensures
        texts_of(arguments@) == match attempt {
            PullAttempt::Autostash => seq!["pull"@, "--autostash"@],
            PullAttempt::Plain => seq!["pull"@],
            PullAttempt::MergeAutostash => seq!["pull"@, "--no-rebase"@, "--autostash"@],
            PullAttempt::Merge => seq!["pull"@, "--no-rebase"@],
        },
{
    let arguments = match attempt {
        PullAttempt::Autostash => words("pull", Some("--autostash"), None),
        PullAttempt::Plain => words("pull", None, None),
        PullAttempt::MergeAutostash => words("pull", Some("--no-rebase"), Some("--autostash")),
        PullAttempt::Merge => words("pull", Some("--no-rebase"), None),
    };
    arguments
}

/// The arguments that git is run with to fetch: from the upstream's remote
/// where the branch has an upstream, and else from the default remote.
pub fn fetch_with_default_remote(remote: Option<&str>) -> (arguments: Vec<String>)
    ensures
        texts_of(arguments@) == match remote {
            Some(name) => seq!["fetch"@, "--prune"@, name@],
            None => seq!["fetch"@, "--prune"@],
        },
{
    let arguments = words("fetch", Some("--prune"), remote);
    arguments
}

/// The arguments that git is run with to push: to the upstream's remote and
/// branch where the branch has an upstream, and else plainly.
pub fn push_with_upstream(upstream: Option<(&str, &str)>) -> (arguments: Vec<String>)
    ensures
        texts_of(arguments@) == match upstream {
            Some((remote, branch)) => seq!["push"@, remote@, "HEAD:"@ + branch@],
            None => seq!["push"@],
        },
{
    match upstream {
        Some((remote, branch)) => {
            let mut refspec = to_chars("HEAD:");
            let name = to_chars(branch);
            append_chars(&mut refspec, name.as_slice());
            let target = from_chars(refspec.as_slice());
            let arguments = words("push", Some(remote), Some(target.as_str()));
            arguments
        },
        None => {
            let arguments = words("push", None, None);
            arguments
        },
    }
}

/// What is asked of git about one path.
#[derive(Clone, Copy, Debug, PartialEq, Eq)]
pub enum PathAction {
    /// `git add -A -- <path>`
    Stage,
    /// `git restore --staged -- <path>`
    Unstage,
    /// `git restore --staged --worktree -- <path>`
    Revert,
    /// `git clean -f -- <path>`: what is tried where reverting failed.
    Clean,
}

/// The words that stand before the path in the arguments of an action.
pub open spec fn path_action_words(action: PathAction) -> Seq<Seq<char>> {
    match action {
        PathAction::Stage => seq!["add"@, "-A"@, "--"@],
        PathAction::Unstage => seq!["restore"@, "--staged"@, "--"@],
        PathAction::Revert => seq!["restore"@, "--staged"@, "--worktree"@, "--"@],
        PathAction::Clean => seq!["clean"@, "-f"@, "--"@],
    }
}

/// The arguments that git is run with for an action on one path.
pub fn path_arguments(action: PathAction, path: &str) -> (arguments: Vec<String>)
    ensures
        texts_of(arguments@) == path_action_words(action).push(path@),
{
    let mut arguments = match action {
        PathAction::Stage => words("add", Some("-A"), Some("--")),
        PathAction::Unstage => words("restore", Some("--staged"), Some("--")),
        PathAction::Revert => {
            let mut list = words("restore", Some("--staged"), Some("--worktree"));
            push_text(&mut list, "--".to_owned());
            list
        },
        PathAction::Clean => words("clean", Some("-f"), Some("--")),
    };
    push_text(&mut arguments, path.to_owned());
    arguments
}

/// What follows an attempt to revert one path: where `git restore` failed,
/// `git clean` is tried, and its failure is the action's.
pub fn revert_git_file_inner(restored: Result<(), String>) -> (next: Option<PathAction>)
    ensures
        next == match restored {
            Ok(_) => None,
            Err(_) => Some(PathAction::Clean),
        },
{
    match restored {
        Ok(_) => None,
        Err(_) => Some(PathAction::Clean),
    }
}

/// The arguments that git is run with to commit with a message.
pub fn commit_arguments(message: &str) -> (arguments: Vec<String>)
    ensures
        texts_of(arguments@) == seq!["commit"@, "-m"@, message@],
{
    let arguments = words("commit", Some("-m"), Some(message));
    arguments
}

/// What is searched for on GitHub.
#[derive(Clone, Copy, Debug, PartialEq, Eq)]
pub enum SearchKind {
    Issues,
    PullRequests,
}

/// A text with `+` in place of every space.
pub open spec fn plus_for_spaces(s: Seq<char>) -> Seq<char> {
    s.map_values(
        |c: char|
            if c == ' ' {
                '+'
            } else {
                c
            },
    )
}

/// The query for the open issues or pull requests of a repository, with `+`
/// for every space.
pub open spec fn search_query(repo: Seq<char>, kind: SearchKind) -> Seq<char> {
    plus_for_spaces(
        "repo:"@ + repo + match kind {
            SearchKind::Issues => " is:issue is:open"@,
            SearchKind::PullRequests => " is:pr is:open"@,
        },
    )
}

/// The endpoint of the GitHub API that counts the open issues or pull
/// requests of a repository.
pub fn search_endpoint(repo: &str, kind: SearchKind) -> (endpoint: String)
    ensures
        endpoint@ == "/search/issues?q="@ + search_query(repo@, kind),
{
    let mut query = to_chars("repo:");
    let name = to_chars(repo);
    append_chars(&mut query, name.as_slice());
    let filter = match kind {
        SearchKind::Issues => to_chars(" is:issue is:open"),
        SearchKind::PullRequests => to_chars(" is:pr is:open"),
    };
    append_chars(&mut query, filter.as_slice());
    let mut out = to_chars("/search/issues?q=");
    let ghost head = out@;
    let mut i: usize = 0;
    while i < query.len()
        invariant
            i <= query.len(),
            out@ == head + plus_for_spaces(query@.take(i as int)),
        decreases query.len() - i,
    {
        let c = query[i];
        out.push(
            if c == ' ' {
                '+'
            } else {
                c
            },
        );
        i += 1;
    }
    from_chars(out.as_slice())
}

/// The endpoint of the GitHub API that lists the comments of a pull request.
pub fn comments_endpoint(repo: &str, pr_number: u64) -> (endpoint: String)
    ensures
        endpoint@ == "/repos/"@ + repo@ + "/issues/"@ + decimal(pr_number as nat)
            + "/comments?per_page=30"@,
{
    let mut out = to_chars("/repos/");
    let name = to_chars(repo);
    append_chars(&mut out, name.as_slice());
    let issues = to_chars("/issues/");
    append_chars(&mut out, issues.as_slice());
    push_decimal(&mut out, pr_number);
    let tail = to_chars("/comments?per_page=30");
    append_chars(&mut out, tail.as_slice());
    from_chars(out.as_slice())
}

/// Whether the character is an ASCII digit.
pub open spec fn is_digit(c: char) -> bool {
    '0' <= c <= '9'
}

/// Whether every character is an ASCII digit.
pub open spec fn all_digits(digits: Seq<char>) -> bool {
    forall|i: int| 0 <= i < digits.len() ==> is_digit(#[trigger] digits[i])
}

/// The number that a digit stands for.
pub open spec fn digit_value(c: char) -> nat {
    (c as u32 - '0' as u32) as nat
}

/// The number that a row of digits stands for, read in decimal.
pub open spec fn digits_value(digits: Seq<char>) -> nat
    decreases digits.len(),
{
    if digits.len() == 0 {
        0
    } else {
        digits_value(digits.drop_last()) * 10 + digit_value(digits.last())
    }
}

/// The count that a text stands for: decimal digits, at least one, after an
/// optional `+`, for a number that a `usize` holds; nothing for anything
/// else.
pub open spec fn count_of(text: Seq<char>) -> Option<usize> {
    let digits = if text.len() > 0 && text[0] == '+' {
        text.skip(1)
    } else {
        text
    };
    if digits.len() == 0 || !all_digits(digits) || digits_value(digits) > usize::MAX {
        None
    } else {
        Some(digits_value(digits) as usize)
    }
}

/// A longer row of digits stands for a number that is no smaller.
pub proof fn lemma_digits_value_grows(digits: Seq<char>, k: int)
    requires
        0 <= k <= digits.len(),
    ensures
        digits_value(digits.take(k)) <= digits_value(digits),
    decreases digits.len() - k,
{
    if k < digits.len() {
        lemma_digits_value_grows(digits, k + 1);
        assert(digits.take(k + 1).drop_last() =~= digits.take(k));
    } else {
        assert(digits.take(k) =~= digits);
    }
}

/// The count that a command wrote, or `fallback` where its output, trimmed,
/// is not a count.
pub fn parse_count(output: &str, fallback: usize) -> (count: usize)
    ensures
        count == match count_of(crate::text::trim(output@)) {
            Some(n) => n,
            None => fallback,
        },
{
    let chars = to_chars(output);
    let text = crate::text::trim_chars(chars.as_slice());
    let from: usize = if text.len() > 0 && text[0] == '+' {
        1
    } else {
        0
    };
    let digits = crate::text::slice_chars(text.as_slice(), from, text.len());
    if digits.len() == 0 {
        return fallback;
    }
    let mut value: usize = 0;
    let mut i: usize = 0;
    while i < digits.len()
        invariant
            i <= digits.len(),
            digits@.len() > 0,
            text@ == crate::text::trim(output@),
            digits@ == if text@.len() > 0 && text@[0] == '+' {
                text@.skip(1)
            } else {
                text@
            },
            forall|j: int| 0 <= j < i ==> is_digit(#[trigger] digits@[j]),
            value == digits_value(digits@.take(i as int)),
        decreases digits.len() - i,
    {
        let c = digits[i];
        if !('0' <= c && c <= '9') {
            return fallback;
        }
        let d = (c as u32 - '0' as u32) as usize;
        assert(digits@.take(i + 1).drop_last() =~= digits@.take(i as int));
        proof {
            lemma_digits_value_grows(digits@, i + 1);
        }
        let next = match value.checked_mul(10) {
            Some(tens) => tens.checked_add(d),
            None => None,
        };
        match next {
            Some(n) => {
                value = n;
            },
            None => {
                return fallback;
            },
        }
        i += 1;
    }
    assert(digits@.take(digits.len() as int) =~= digits@);
    value
}

/// How many open issues or pull requests a repository has: what GitHub
/// counted, where asking it succeeded and it wrote a count, and else as many
/// as were listed.
pub fn open_count(success: bool, output: &str, listed: usize) -> (count: usize)
    ensures
        count == if success {
            match count_of(crate::text::trim(output@)) {
                Some(n) => n,
                None => listed,
            }
        } else {
            listed
        },
{
    if success {
        parse_count(output, listed)
    } else {
        listed
    }
}

} // verus!
