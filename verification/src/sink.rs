//! The pure half of the two-phase-commit facade: aggregating recovered
//! state for `Init`, and partitioning checkpoint artifacts into the
//! per-subtask recovery record and the pre-commit tokens.

use vstd::prelude::*;
use crate::actor::{CheckpointData, InProgressFileCheckpoint};
use crate::multipart::{FileCheckpointData, FileToFinish};

verus! {

/// The per-subtask recovery record: where the file index continues, and
/// the files still in flight at the checkpoint.
#[derive(Debug, Clone)]
pub struct FileSystemDataRecovery {
    pub next_file_index: usize,
    pub active_files: Vec<InProgressFileCheckpoint>,
}

/// A failure of the checkpoint-artifact protocol.
#[derive(Debug)]
pub enum SinkError {
    /// The artifact stream ended without a `Finished` marker.
    MissingFinished,
    /// The file index cannot advance past the machine's limit.
    IndexOverflow,
}

/// The largest `next_file_index` among recovery records, zero when
/// there are none.
pub open spec fn spec_max_next(s: Seq<FileSystemDataRecovery>) -> int
    decreases s.len(),
{
    if s.len() == 0 {
        0
    } else {
        let rest = spec_max_next(s.drop_last());
        if s.last().next_file_index > rest {
            s.last().next_file_index as int
        } else {
            rest
        }
    }
}

/// All active files of the recovery records, in order.
pub open spec fn spec_all_active(s: Seq<FileSystemDataRecovery>) -> Seq<InProgressFileCheckpoint>
    decreases s.len(),
{
    if s.len() == 0 {
        Seq::empty()
    } else {
        spec_all_active(s.drop_last()) + s.last().active_files@
    }
}

/// Aggregates the recovery records into the `Init` message: the file
/// index continues from the maximum reported by any prior subtask, and
/// subtask zero alone takes over every recovered file, since the
/// subtask count may have changed on restart.
pub fn init_message(task_index: usize, data_recovery: Vec<FileSystemDataRecovery>) -> (r: (
    usize,
    Vec<InProgressFileCheckpoint>,
))
    ensures
        r.0 as int == spec_max_next(data_recovery@),
        task_index == 0 ==> r.1@ == spec_all_active(data_recovery@),
        task_index != 0 ==> r.1@.len() == 0,
{
    let mut max_file_index: usize = 0;
    let mut recovered_files: Vec<InProgressFileCheckpoint> = Vec::new();
    let ghost input = data_recovery@;
    let mut data_recovery = data_recovery;
    let n = data_recovery.len();
    let mut i: usize = 0;
    #[verifier::loop_isolation(false)]
    while i < n
        invariant
            0 <= i <= n,
            input.len() == n,
            data_recovery@ == input.skip(i as int),
            max_file_index as int == spec_max_next(input.take(i as int)),
            task_index == 0 ==> recovered_files@ == spec_all_active(input.take(i as int)),
            task_index != 0 ==> recovered_files@.len() == 0,
        decreases n - i,
    {
        proof {
            assert(input.skip(i as int)[0] == input[i as int]);
            assert(input.skip(i as int).remove(0) =~= input.skip(i as int + 1));
            assert(input.take(i as int).push(input[i as int]) =~= input.take(i as int + 1));
            assert(input.take(i as int + 1).drop_last() =~= input.take(i as int));
        }
        let rec = data_recovery.remove(0);
        if rec.next_file_index > max_file_index {
            max_file_index = rec.next_file_index;
        }
        if task_index == 0 {
            let ghost rf0 = recovered_files@;
            let mut active = rec.active_files;
            let ghost active0 = active@;
            recovered_files.append(&mut active);
            proof {
                assert(recovered_files@ =~= rf0 + active0);
            }
        }
        i = i + 1;
    }
    proof {
        assert(input.take(n as int) =~= input);
    }
    (max_file_index, recovered_files)
}

/// The position of the first `Finished` artifact.
pub open spec fn spec_first_finished(s: Seq<CheckpointData>) -> Option<int>
    decreases s.len(),
{
    if s.len() == 0 {
        None
    } else if s[0] is Finished {
        Some(0int)
    } else {
        match spec_first_finished(s.drop_first()) {
            Some(k) => Some(k + 1),
            None => None,
        }
    }
}

/// Whether a per-file artifact is a completed upload (and so a
/// pre-commit token) rather than a still-active file.
pub open spec fn spec_is_completed(c: InProgressFileCheckpoint) -> bool {
    c.data is MultiPartWriterUploadCompleted
}

/// The still-active files among the artifacts, in order.
pub open spec fn spec_actives(s: Seq<CheckpointData>) -> Seq<InProgressFileCheckpoint>
    decreases s.len(),
{
    if s.len() == 0 {
        Seq::empty()
    } else {
        spec_actives(s.drop_last()) + (match s.last() {
            CheckpointData::InProgressFileCheckpoint(c) => if !spec_is_completed(c) {
                seq![c]
            } else {
                Seq::<InProgressFileCheckpoint>::empty()
            },
            CheckpointData::Finished { .. } => Seq::<InProgressFileCheckpoint>::empty(),
        })
    }
}

/// The pre-commit tokens among the artifacts, keyed by file name, in
/// order.
pub open spec fn spec_precommits(s: Seq<CheckpointData>) -> Seq<(String, FileToFinish)>
    decreases s.len(),
{
    if s.len() == 0 {
        Seq::empty()
    } else {
        spec_precommits(s.drop_last()) + (match s.last() {
            CheckpointData::InProgressFileCheckpoint(c) => match c.data {
                FileCheckpointData::MultiPartWriterUploadCompleted {
                    multi_part_upload_id,
                    completed_parts,
                } => seq![
                    (
                        c.filename,
                        FileToFinish {
                            filename: c.filename,
                            multi_part_upload_id,
                            completed_parts,
                        },
                    ),
                ],
                _ => Seq::<(String, FileToFinish)>::empty(),
            },
            CheckpointData::Finished { .. } => Seq::<(String, FileToFinish)>::empty(),
        })
    }
}

/// Splits the artifacts of one checkpoint epoch: every completed-upload
/// snapshot before the `Finished` marker becomes a pre-commit token
/// keyed by its file name; every other snapshot stays an active file of
/// the recovery record, whose `next_file_index` continues one past the
/// reported maximum.
///
/// The pre-commit list is the protocol's per-file map, in emission
/// order.  Tokens of files written in this epoch carry distinct names
/// (no two live writers share a file name); only a token recovered
/// from an earlier epoch can repeat a name, and a consumer then treats
/// the later entry as overriding the earlier, as a map insert would.
pub fn partition_checkpoint_data(items: Vec<CheckpointData>) -> (r: Result<
    (FileSystemDataRecovery, Vec<(String, FileToFinish)>),
    SinkError,
>)
    ensures
        r is Err <==> spec_first_finished(items@) is None || (spec_first_finished(items@) matches
            Some(k) && items@[k]->Finished_max_file_index == usize::MAX),
        r matches Ok(out) ==> (spec_first_finished(items@) matches Some(k) && {
            &&& out.0.next_file_index == items@[k]->Finished_max_file_index + 1
            &&& out.0.active_files@ == spec_actives(items@.take(k))
            &&& out.1@ == spec_precommits(items@.take(k))
        }),
{
    let mut active_files: Vec<InProgressFileCheckpoint> = Vec::new();
    let mut pre_commits: Vec<(String, FileToFinish)> = Vec::new();
    let ghost input = items@;
    let mut items = items;
    let n = items.len();
    let mut i: usize = 0;
    #[verifier::loop_isolation(false)]
    while i < n
        invariant
            0 <= i <= n,
            input.len() == n,
            items@ == input.skip(i as int),
            forall|j: int| 0 <= j < i ==> !((#[trigger] input[j]) is Finished),
            active_files@ == spec_actives(input.take(i as int)),
            pre_commits@ == spec_precommits(input.take(i as int)),
        decreases n - i,
    {
        proof {
            assert(input.skip(i as int)[0] == input[i as int]);
            assert(input.skip(i as int).remove(0) =~= input.skip(i as int + 1));
            assert(input.take(i as int).push(input[i as int]) =~= input.take(i as int + 1));
            assert(input.take(i as int + 1).drop_last() =~= input.take(i as int));
        }
        let item = items.remove(0);
        match item {
            CheckpointData::Finished { max_file_index } => {
                proof {
                    lemma_first_finished_at(input, i as int);
                }
                if max_file_index == usize::MAX {
                    return Err(SinkError::IndexOverflow);
                }
                return Ok((
                    FileSystemDataRecovery { next_file_index: max_file_index + 1, active_files },
                    pre_commits,
                ));
            },
            CheckpointData::InProgressFileCheckpoint(c) => {
                let ghost a0 = active_files@;
                let ghost p0 = pre_commits@;
                match c.data {
                    FileCheckpointData::MultiPartWriterUploadCompleted {
                        multi_part_upload_id,
                        completed_parts,
                    } => {
                        let filename = c.filename.clone();
                        let ghost cv = c;
                        proof {
                            assert(filename@ == cv.filename@);
                        }
                        pre_commits.push((
                            c.filename,
                            FileToFinish { filename, multi_part_upload_id, completed_parts },
                        ));
                        proof {
                            assert(a0 + Seq::<InProgressFileCheckpoint>::empty() =~= a0);
                            assert(pre_commits@ =~= p0 + seq![pre_commits@.last()]);
                        }
                    },
                    _ => {
                        active_files.push(c);
                        proof {
                            assert(p0 + Seq::<(String, FileToFinish)>::empty() =~= p0);
                            assert(active_files@ =~= a0 + seq![active_files@.last()]);
                        }
                    },
                }
            },
        }
        i = i + 1;
    }
    proof {
        lemma_first_finished_none(input, n as int);
    }
    Err(SinkError::MissingFinished)
}

/// If no artifact before `k` is `Finished` and the one at `k` is, then
/// `k` is the first.
proof fn lemma_first_finished_at(s: Seq<CheckpointData>, k: int)
    requires
        0 <= k < s.len(),
        s[k] is Finished,
        forall|j: int| 0 <= j < k ==> !((#[trigger] s[j]) is Finished),
    ensures
        spec_first_finished(s) == Some(k),
    decreases k,
{
    if k == 0 {
    } else {
        assert(!(s[0] is Finished));
        lemma_first_finished_at(s.drop_first(), k - 1);
    }
}

/// If no artifact among the first `n` (of `n`) is `Finished`, there is
/// no first.
proof fn lemma_first_finished_none(s: Seq<CheckpointData>, n: int)
    requires
        n == s.len(),
        forall|j: int| 0 <= j < n ==> !((#[trigger] s[j]) is Finished),
    ensures
        spec_first_finished(s) is None,
    decreases n,
{
    if n > 0 {
        lemma_first_finished_none(s.drop_first(), n - 1);
    }
}

} // verus!
