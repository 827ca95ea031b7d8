use vstd::prelude::*;

use crate::text::join;

verus! {

/// The suffix that marks the file a commit writes before renaming it.
pub open spec fn temp_suffix() -> Seq<char> {
    seq!['.', 't', 'm', 'p']
}

/// Where a commit writes the vault before it replaces `target`.
pub open spec fn temp_of(target: Seq<char>) -> Seq<char> {
    target + temp_suffix()
}

/// The directory part of a path: everything up to and including its last `/`,
/// or nothing when it has none.
pub open spec fn dir_of(p: Seq<char>) -> Seq<char>
    decreases p.len(),
{
    if p.len() == 0 {
        p
    } else if p.last() == '/' {
        p
    } else {
        dir_of(p.drop_last())
    }
}

/// The two paths of one commit.
pub struct CommitPlan {
    /// The file the serialized vault is written to first.
    pub temp: String,
    /// The vault file, replaced by renaming `temp` onto it.
    pub target: String,
}

/// The paths of a commit to the vault file at `target`.
pub fn plan_commit(target: &str) -> (r: CommitPlan)
    ensures
        r.target@ == target@,
        r.temp@ == temp_of(target@),
{
    proof {
        reveal_strlit(".tmp");
    }
    assert(".tmp"@ =~= temp_suffix());
    CommitPlan { temp: join(target, ".tmp"), target: target.to_owned() }
}

/// The temporary file is never the vault file itself, and it lies in the
/// same directory, so that renaming it is a move within one file system.
pub proof fn lemma_temp_beside_target(target: Seq<char>)
    ensures
        temp_of(target) != target,
        dir_of(temp_of(target)) == dir_of(target),
{
    assert(temp_of(target).len() == target.len() + 4);
    let t3 = target + seq!['.', 't', 'm'];
    let t2 = target + seq!['.', 't'];
    let t1 = target + seq!['.'];
    assert(temp_of(target).drop_last() =~= t3);
    assert(t3.drop_last() =~= t2);
    assert(t2.drop_last() =~= t1);
    assert(t1.drop_last() =~= target);
    assert(dir_of(t1) == dir_of(target));
    assert(dir_of(t2) == dir_of(t1));
    assert(dir_of(t3) == dir_of(t2));
    assert(dir_of(temp_of(target)) == dir_of(t3));
}

/// Where a commit stands.
#[derive(PartialEq, Eq, Structural, Clone, Copy, Debug)]
pub enum CommitStep {
    /// Put the entry into the vault held in memory.
    Apply,
    /// Write the serialized vault to the temporary file.
    WriteTemp,
    /// Rename the temporary file onto the vault file.
    Rename,
    /// The vault file holds the new vault.
    Done,
    /// A step failed; the session ends.
    Failed,
}

/// The step after `step`, given whether it succeeded.
pub open spec fn after(step: CommitStep, ok: bool) -> CommitStep {
    if !ok {
        match step {
            CommitStep::Done => CommitStep::Done,
            _ => CommitStep::Failed,
        }
    } else {
        match step {
            CommitStep::Apply => CommitStep::WriteTemp,
            CommitStep::WriteTemp => CommitStep::Rename,
            CommitStep::Rename => CommitStep::Done,
            CommitStep::Done => CommitStep::Done,
            CommitStep::Failed => CommitStep::Failed,
        }
    }
}

/// The step that follows `step` once it has succeeded (`ok`) or failed.
/// No step is retried: a failure ends the commit.
pub fn next_step(step: CommitStep, ok: bool) -> (r: CommitStep)
    ensures
        r == after(step, ok),
{
    if !ok {
        match step {
            CommitStep::Done => CommitStep::Done,
            _ => CommitStep::Failed,
        }
    } else {
        match step {
            CommitStep::Apply => CommitStep::WriteTemp,
            CommitStep::WriteTemp => CommitStep::Rename,
            CommitStep::Rename => CommitStep::Done,
            CommitStep::Done => CommitStep::Done,
            CommitStep::Failed => CommitStep::Failed,
        }
    }
}

/// Files by path, as a commit sees them.
pub type Disk = Map<Seq<char>, Seq<u8>>;

/// A model of the disk, not the code that writes it: the disk after a commit
/// of `bytes` to `target` whose `WriteTemp` step had the outcome `written`
/// (leaving `partial` behind when it failed) and whose `Rename` step had the
/// outcome `renamed` (tried only after a write).
pub open spec fn commit_effect(
    disk: Disk,
    target: Seq<char>,
    bytes: Seq<u8>,
    written: bool,
    partial: Seq<u8>,
    renamed: bool,
) -> Disk {
    let temp = temp_of(target);
    if !written {
        disk.insert(temp, partial)
    } else if !renamed {
        disk.insert(temp, bytes)
    } else {
        disk.insert(temp, bytes).remove(temp).insert(target, bytes)
    }
}

/// In the model of `commit_effect`, a commit whose steps `next_step` takes to
/// `Done` leaves the new bytes in the vault file, and one that it takes to
/// `Failed` leaves the vault file as it was, byte for byte.
pub proof fn lemma_commit_all_or_nothing(
    disk: Disk,
    target: Seq<char>,
    bytes: Seq<u8>,
    written: bool,
    partial: Seq<u8>,
    renamed: bool,
)
    ensures
        (after(after(CommitStep::WriteTemp, written), renamed) == CommitStep::Done) == (written && renamed),
        (after(after(CommitStep::WriteTemp, written), renamed) == CommitStep::Failed) == !(written && renamed),
        written && renamed ==> commit_effect(disk, target, bytes, written, partial, renamed).contains_key(target)
            && commit_effect(disk, target, bytes, written, partial, renamed)[target] == bytes,
        !(written && renamed) ==> (commit_effect(disk, target, bytes, written, partial, renamed).contains_key(target)
            == disk.contains_key(target)),
        !(written && renamed) && disk.contains_key(target) ==>
            commit_effect(disk, target, bytes, written, partial, renamed)[target] == disk[target],
{
    lemma_temp_beside_target(target);
}

} // verus!
