//! The branches of a repository, in the order in which they are listed.

use vstd::prelude::*;

verus! {

/// A local branch and the time of its last commit, in seconds since the
/// epoch.
#[derive(Clone, Debug, PartialEq, Eq)]
pub struct BranchInfo {
    pub name: String,
    pub last_commit: i64,
}

/// The index at which a branch with this time of last commit goes into a
/// list that is ordered: after every branch that is as new or newer.
pub open spec fn place_of(ordered: Seq<BranchInfo>, last_commit: i64) -> nat
    decreases ordered.len(),
{
    if ordered.len() == 0 {
        0
    } else if ordered[0].last_commit < last_commit {
        0
    } else {
        1 + place_of(ordered.skip(1), last_commit)
    }
}

/// The branches with the newest first; branches of the same time stay in the
/// order they came in.
pub open spec fn newest_first(branches: Seq<BranchInfo>) -> Seq<BranchInfo>
    decreases branches.len(),
{
    if branches.len() == 0 {
        branches
    } else {
        let ordered = newest_first(branches.drop_last());
        ordered.insert(place_of(ordered, branches.last().last_commit) as int, branches.last())
    }
}

/// Whether no branch stands before a newer one.
pub open spec fn is_newest_first(branches: Seq<BranchInfo>) -> bool {
    forall|i: int, j: int|
        0 <= i <= j < branches.len() ==> branches[i].last_commit >= branches[j].last_commit
}

/// Where a branch goes into an ordered list: everything before that place is
/// as new or newer, and what stands at it is older.
pub proof fn lemma_place_of(ordered: Seq<BranchInfo>, last_commit: i64)
    ensures
        place_of(ordered, last_commit) <= ordered.len(),
        forall|i: int|
            0 <= i < place_of(ordered, last_commit) ==> ordered[i].last_commit >= last_commit,
        place_of(ordered, last_commit) < ordered.len() ==> ordered[place_of(
            ordered,
            last_commit,
        ) as int].last_commit < last_commit,
    decreases ordered.len(),
{
    if ordered.len() > 0 && ordered[0].last_commit >= last_commit {
        let rest = ordered.skip(1);
        lemma_place_of(rest, last_commit);
        assert forall|i: int| 0 <= i < place_of(ordered, last_commit) implies ordered[i].last_commit
            >= last_commit by {
            if i > 0 {
                assert(rest[i - 1] == ordered[i]);
            }
        }
    }
}

/// The listing is in order, and it is the same branches: none lost, none
/// made up, none twice.
pub proof fn lemma_newest_first(branches: Seq<BranchInfo>)
    ensures
        is_newest_first(newest_first(branches)),
        newest_first(branches).len() == branches.len(),
        newest_first(branches).to_multiset() == branches.to_multiset(),
    decreases branches.len(),
{
    if branches.len() > 0 {
        let earlier = branches.drop_last();
        let branch = branches.last();
        let ordered = newest_first(earlier);
        lemma_newest_first(earlier);
        lemma_place_of(ordered, branch.last_commit);
        let at = place_of(ordered, branch.last_commit) as int;
        vstd::seq_lib::to_multiset_insert(ordered, at, branch);
        assert(branches =~= earlier.push(branch));
        vstd::seq_lib::to_multiset_build(earlier, branch);
    }
}

/// Lists the branches with the newest first.
pub fn sort_branches(branches: Vec<BranchInfo>) -> (ordered: Vec<BranchInfo>)
    ensures
        ordered@ == newest_first(branches@),
{
    let mut branches = branches;
    let ghost all = branches@;
    let mut ordered: Vec<BranchInfo> = Vec::new();
    let mut count: usize = 0;
    let total = branches.len();
    while branches.len() > 0
        invariant
            count + branches.len() == total == all.len(),
            branches@ == all.skip(count as int),
            ordered@ == newest_first(all.take(count as int)),
        decreases branches.len(),
    {
        let branch = branches.remove(0);
        assert(all.take(count + 1).drop_last() =~= all.take(count as int));
        let mut at: usize = 0;
        assert(ordered@.skip(0) =~= ordered@);
        while at < ordered.len() && ordered[at].last_commit >= branch.last_commit
            invariant
                at <= ordered.len(),
                place_of(ordered@, branch.last_commit) == at + place_of(
                    ordered@.skip(at as int),
                    branch.last_commit,
                ),
            decreases ordered.len() - at,
        {
            assert(ordered@.skip(at as int).skip(1) =~= ordered@.skip(at + 1));
            at += 1;
        }
        ordered.insert(at, branch);
        count += 1;
    }
    assert(all.take(total as int) =~= all);
    ordered
}

/// The branches that have a name, in the order they came in.
pub open spec fn named(branches: Seq<BranchInfo>) -> Seq<BranchInfo>
    decreases branches.len(),
{
    if branches.len() == 0 {
        branches
    } else if branches.last().name@.len() == 0 {
        named(branches.drop_last())
    } else {
        named(branches.drop_last()).push(branches.last())
    }
}

/// The branches as they are listed: those with a name, the newest first.
pub fn list_branches(branches: Vec<BranchInfo>) -> (listed: Vec<BranchInfo>)
    ensures
        listed@ == newest_first(named(branches@)),
{
    let mut branches = branches;
    let ghost all = branches@;
    let mut kept: Vec<BranchInfo> = Vec::new();
    let mut count: usize = 0;
    let total = branches.len();
    while branches.len() > 0
        invariant
            count + branches.len() == total == all.len(),
            branches@ == all.skip(count as int),
            kept@ == named(all.take(count as int)),
        decreases branches.len(),
    {
        let branch = branches.remove(0);
        assert(all.take(count + 1).drop_last() =~= all.take(count as int));
        let name = crate::text::to_chars(branch.name.as_str());
        if name.len() > 0 {
            kept.push(branch);
        }
        count += 1;
    }
    assert(all.take(total as int) =~= all);
    sort_branches(kept)
}

} // verus!
