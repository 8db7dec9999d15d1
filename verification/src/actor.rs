//! The writer actor: the decision core of the sink.
//!
//! It owns the current writer, the map of closed-but-unfinalized
//! writers, and the pre-commit tokens accumulated since the last
//! checkpoint.  Each handler is a pure step of the protocol: it takes
//! one inbound event and returns the store actions the driver must
//! perform; the store's answers come back through `process_callback`.
//! No two live writers ever share a file name: every writer is created
//! under a fresh file index, and distinct indices give distinct names.

use vstd::prelude::*;
use crate::multipart::{
    FileCheckpointData, FileToFinish, MultipartAction, MultipartCallback, MultipartManager,
    UploadPartOrBufferedData, UploadedPart,
};
use crate::names::{format_file_name, lemma_file_name_injective, spec_file_name};
use crate::recovery::{plan_recovery, spec_plan_for, RecoveryPlan};
use crate::rolling::RollingPolicy;
use crate::table::FileSystemTable;
use crate::writer::{spec_part_outcome, BatchBuilder, BatchBufferingWriter, BatchMultipartWriter};

verus! {

/// One message of the inbound protocol.
pub enum FileSystemMessages {
    Data { value: Vec<u8>, time: u64 },
    Init { max_file_index: usize, subtask_id: usize, recovered_files: Vec<InProgressFileCheckpoint> },
    Checkpoint { subtask_id: usize, then_stop: bool },
    FilesToFinish(Vec<FileToFinish>),
}

/// One checkpoint artifact on the outbound channel.
pub enum CheckpointData {
    InProgressFileCheckpoint(InProgressFileCheckpoint),
    Finished { max_file_index: usize },
}

/// The per-file snapshot an epoch's checkpoint carries.
#[derive(Debug, Clone)]
pub struct InProgressFileCheckpoint {
    pub filename: String,
    pub data: FileCheckpointData,
    pub buffered_data: Vec<Vec<u8>>,
}

/// A fatal protocol violation: the actor stops with it, and the
/// runtime's restart-from-checkpoint machinery is the recovery path.
#[derive(Debug)]
pub enum ActorError {
    /// A record arrived but no current writer exists (`Data` before
    /// `Init`, or after a stopping checkpoint).
    CurrentWriterMissing,
    /// A callback named a file no live writer owns.
    MissingWriter { name: String },
    /// A callback does not fit the named writer's state.
    UnexpectedCallback { name: String },
    /// `Init` arrived while writers were already live.
    AlreadyInitialized,
    /// A file to finish is still an active writer.
    ActiveWriterConflict { filename: String },
}

/// The files of a commit set that actually have parts to finalize, in
/// order: a token with no parts needs no store call.
pub open spec fn spec_nonempty_files(s: Seq<FileToFinish>) -> Seq<FileToFinish>
    decreases s.len(),
{
    if s.len() == 0 {
        Seq::empty()
    } else {
        spec_nonempty_files(s.drop_last()) + (if s.last().completed_parts@.len() > 0 {
            seq![s.last()]
        } else {
            Seq::<FileToFinish>::empty()
        })
    }
}

/// Appending one token extends the kept files by it exactly when it has
/// parts.
pub proof fn lemma_nonempty_files_push(s: Seq<FileToFinish>, x: FileToFinish)
    ensures
        spec_nonempty_files(s.push(x)) == spec_nonempty_files(s) + (if x.completed_parts@.len() > 0 {
            seq![x]
        } else {
            Seq::<FileToFinish>::empty()
        }),
{
    assert(s.push(x).drop_last() =~= s);
    assert(s.push(x).last() == x);
}

/// All records the recovered files still held as unserialized input,
/// in order: these were never bytes on the store and must be re-fed.
pub open spec fn spec_all_buffered(s: Seq<InProgressFileCheckpoint>) -> Seq<Seq<u8>>
    decreases s.len(),
{
    if s.len() == 0 {
        Seq::empty()
    } else {
        spec_all_buffered(s.drop_last()) + s.last().buffered_data.deep_view()
    }
}

/// Appending one recovered file appends its buffered records.
pub proof fn lemma_all_buffered_push(s: Seq<InProgressFileCheckpoint>, x: InProgressFileCheckpoint)
    ensures
        spec_all_buffered(s.push(x)) == spec_all_buffered(s) + x.buffered_data.deep_view(),
{
    assert(s.push(x).drop_last() =~= s);
    assert(s.push(x).last() == x);
}

/// The record sequences of all files, joined in file-creation order.
pub open spec fn spec_concat_records(s: Seq<Seq<Seq<u8>>>) -> Seq<Seq<u8>>
    decreases s.len(),
{
    if s.len() == 0 {
        Seq::empty()
    } else {
        spec_concat_records(s.drop_last()) + s.last()
    }
}

/// Starting one more (empty) file leaves the joined records unchanged.
pub proof fn lemma_concat_records_push_empty(s: Seq<Seq<Seq<u8>>>)
    ensures
        spec_concat_records(s.push(Seq::empty())) == spec_concat_records(s),
{
    assert(s.push(Seq::<Seq<u8>>::empty()).drop_last() =~= s);
    assert(s.push(Seq::<Seq<u8>>::empty()).last() == Seq::<Seq<u8>>::empty());
    assert(spec_concat_records(s) + Seq::<Seq<u8>>::empty() =~= spec_concat_records(s));
}

/// Appending a record to the newest file appends it to the joined
/// records.
pub proof fn lemma_concat_records_append_last(s: Seq<Seq<Seq<u8>>>, v: Seq<u8>)
    requires
        s.len() > 0,
    ensures
        spec_concat_records(s.update(s.len() - 1, s.last().push(v)))
            == spec_concat_records(s).push(v),
{
    let s2 = s.update(s.len() - 1, s.last().push(v));
    assert(s2.drop_last() =~= s.drop_last());
    assert(s2.last() == s.last().push(v));
    assert(spec_concat_records(s.drop_last()) + s.last().push(v)
        =~= (spec_concat_records(s.drop_last()) + s.last()).push(v));
}

/// The returned action list carries exactly what one optional store
/// action holds: one element for `Some`, none for `None`.
pub open spec fn r_matches_close_act(r: Seq<MultipartAction>, a: Option<MultipartAction>) -> bool {
    r == (match a {
        Some(x) => seq![x],
        None => Seq::<MultipartAction>::empty(),
    })
}

/// The recovered files that actually need recovery work, in order: an
/// empty snapshot needs nothing.
pub open spec fn spec_nonempty_checkpoints(s: Seq<InProgressFileCheckpoint>) -> Seq<InProgressFileCheckpoint>
    decreases s.len(),
{
    if s.len() == 0 {
        Seq::empty()
    } else {
        spec_nonempty_checkpoints(s.drop_last()) + (if s.last().data is Empty {
            Seq::<InProgressFileCheckpoint>::empty()
        } else {
            seq![s.last()]
        })
    }
}

/// Appending one recovered file appends it to the files needing work
/// exactly when its snapshot is not empty.
pub proof fn lemma_nonempty_checkpoints_push(s: Seq<InProgressFileCheckpoint>, x: InProgressFileCheckpoint)
    ensures
        spec_nonempty_checkpoints(s.push(x)) == spec_nonempty_checkpoints(s) + (if x.data is Empty {
            Seq::<InProgressFileCheckpoint>::empty()
        } else {
            seq![x]
        }),
{
    assert(s.push(x).drop_last() =~= s);
    assert(s.push(x).last() == x);
}

/// The writer actor's state.
pub struct MultipartFileSystemWriter<BB: BatchBuilder, BBW: BatchBufferingWriter<BatchData = BB::BatchData>> {
    pub path: String,
    pub current_writer_name: String,
    pub max_file_index: usize,
    pub subtask_id: usize,
    /// The live writers, keyed by file name: the current writer and any
    /// closed-but-unfinalized ones.
    pub writers: Vec<(String, BatchMultipartWriter<BB, BBW>)>,
    /// Pre-commit tokens accumulated since the last checkpoint.
    pub files_to_finish: Vec<FileToFinish>,
    pub properties: FileSystemTable,
    pub rolling_policy: RollingPolicy,
    /// The file index each live writer was created under.
    pub writer_indices: Ghost<Seq<int>>,
    /// The records of every file ever opened here, in creation order;
    /// an entry freezes when its writer leaves the live set.
    pub file_records: Ghost<Seq<Seq<Seq<u8>>>>,
    /// Each live writer's position in `file_records`.
    pub record_pos: Ghost<Seq<int>>,
    /// Every record accepted since the start, in arrival order.
    pub accepted: Ghost<Seq<Seq<u8>>>,
    /// The file index behind each pending token; `-1` for a token that
    /// was recovered from an earlier epoch rather than written here.
    pub finish_indices: Ghost<Seq<int>>,
}

impl<BB: BatchBuilder, BBW: BatchBufferingWriter<BatchData = BB::BatchData>> MultipartFileSystemWriter<
    BB,
    BBW,
> {
    /// Well-formedness: every writer is well-formed and keyed by its own
    /// file name; each was created under a file index no greater than
    /// `max_file_index`, all distinct — so no two live writers share a
    /// file name; every pending token's index is bounded too.
    pub open spec fn wf(&self) -> bool {
        &&& self.writer_indices@.len() == self.writers@.len()
        &&& forall|i: int| 0 <= i < self.writers@.len() ==> (#[trigger] self.writers@[i]).1.wf()
        &&& forall|i: int|
            0 <= i < self.writers@.len() ==> (#[trigger] self.writers@[i]).0@
                == self.writers@[i].1.multipart_manager.location@
        &&& forall|i: int|
            0 <= i < self.writers@.len() ==> (#[trigger] self.writers@[i]).0@ == spec_file_name(
                self.path@,
                self.writer_indices@[i],
                self.subtask_id as int,
            ) + "."@ + BBW::spec_suffix()
        &&& forall|i: int|
            0 <= i < self.writer_indices@.len() ==> 0 <= #[trigger] self.writer_indices@[i]
                <= self.max_file_index
        &&& forall|i: int, j: int|
            0 <= i < j < self.writer_indices@.len() ==> self.writer_indices@[i]
                != self.writer_indices@[j]
        &&& self.record_pos@.len() == self.writers@.len()
        &&& forall|i: int|
            0 <= i < self.record_pos@.len() ==> 0 <= #[trigger] self.record_pos@[i]
                < self.file_records@.len()
        &&& forall|i: int|
            0 <= i < self.writers@.len() ==> self.file_records@[self.record_pos@[i]]
                == (#[trigger] self.writers@[i]).1.records@
        &&& forall|i: int, j: int|
            0 <= i < j < self.record_pos@.len() ==> self.record_pos@[i] < self.record_pos@[j]
        &&& forall|i: int|
            0 <= i < self.writers@.len() ==> ((#[trigger] self.writers@[i]).0@
                == self.current_writer_name@ ==> self.record_pos@[i]
                == self.file_records@.len() - 1)
        &&& self.accepted@ == spec_concat_records(self.file_records@)
        &&& self.finish_indices@.len() == self.files_to_finish@.len()
        &&& forall|i: int|
            0 <= i < self.finish_indices@.len() ==> #[trigger] self.finish_indices@[i]
                <= self.max_file_index
        &&& self.properties.file_settings is Some
        &&& self.rolling_policy matches RollingPolicy::AnyPolicy(ps) && ps@
            == RollingPolicy::spec_policies_for(self.properties.file_settings->0)
    }

    /// Distinct file indices give distinct full file names, suffix
    /// included.
    pub proof fn lemma_full_names_distinct(path: Seq<char>, i1: int, i2: int, subtask: int)
        requires
            i1 >= 0,
            i2 >= 0,
            i1 != i2,
        ensures
            spec_file_name(path, i1, subtask) + "."@ + BBW::spec_suffix() != spec_file_name(
                path,
                i2,
                subtask,
            ) + "."@ + BBW::spec_suffix(),
    {
        lemma_file_name_injective(path, i1, i2, subtask);
        let a = spec_file_name(path, i1, subtask);
        let b = spec_file_name(path, i2, subtask);
        let an = a + "."@ + BBW::spec_suffix();
        let bn = b + "."@ + BBW::spec_suffix();
        if an == bn {
            assert(an.len() == a.len() + "."@.len() + BBW::spec_suffix().len());
            assert(bn.len() == b.len() + "."@.len() + BBW::spec_suffix().len());
            assert(a.len() == b.len());
            assert forall|k: int| 0 <= k < a.len() implies a[k] == b[k] by {
                assert(an[k] == a[k]);
                assert(bn[k] == b[k]);
            }
            assert(a =~= b);
        }
    }

    /// No two live writers share a file name.
    pub proof fn lemma_writer_names_distinct(&self, i: int, j: int)
        requires
            self.wf(),
            0 <= i < j < self.writers@.len(),
        ensures
            self.writers@[i].0@ != self.writers@[j].0@,
    {
        Self::lemma_full_names_distinct(
            self.path@,
            self.writer_indices@[i],
            self.writer_indices@[j],
            self.subtask_id as int,
        );
    }

    /// No bytes are shared between two live files: the files have
    /// distinct names, and each one's content is exactly the encoder's
    /// serialization of its own records — so bytes of one record stream
    /// never appear in another subtask file.
    pub proof fn lemma_files_do_not_overlap(&self, i: int, j: int)
        requires
            self.wf(),
            0 <= i < j < self.writers@.len(),
            self.writers@[i].1.multipart_manager.closed,
            self.writers@[j].1.multipart_manager.closed,
        ensures
            self.writers@[i].0@ != self.writers@[j].0@,
            self.writers@[i].1.file_bytes() == BBW::stream(self.writers@[i].1.records@),
            self.writers@[j].1.file_bytes() == BBW::stream(self.writers@[j].1.records@),
    {
        self.lemma_writer_names_distinct(i, j);
        self.writers@[i].1.lemma_closed_file_bytes();
        self.writers@[j].1.lemma_closed_file_bytes();
    }

    /// No record is lost or duplicated across files: every record the
    /// actor has accepted appears exactly once, in arrival order, in
    /// the per-file record partition — the records of the files opened
    /// here, joined in file-creation order.  Together with
    /// `lemma_closed_file_bytes`, which says a closed file's bytes are
    /// exactly the encoder's serialization of its own records, this
    /// accounts for every accepted byte.
    pub proof fn lemma_no_record_lost(&self)
        requires
            self.wf(),
        ensures
            self.accepted@ == spec_concat_records(self.file_records@),
            forall|i: int|
                0 <= i < self.writers@.len() ==> self.file_records@[self.record_pos@[i]]
                    == (#[trigger] self.writers@[i]).1.records@,
    {
    }

    /// Every pending pre-commit token was created under a file index
    /// strictly below the next file index the checkpoint will report.
    pub proof fn lemma_next_index_dominates(&self)
        requires
            self.wf(),
        ensures
            forall|i: int|
                0 <= i < self.finish_indices@.len() ==> #[trigger] self.finish_indices@[i]
                    < self.max_file_index + 1,
            forall|i: int|
                0 <= i < self.writer_indices@.len() ==> #[trigger] self.writer_indices@[i]
                    < self.max_file_index + 1,
    {
    }

    /// A fresh actor: no writers, no pending tokens, indices zero.
    pub fn new(path: String, properties: FileSystemTable) -> (r: Self)
        requires
            properties.file_settings is Some,
        ensures
            r.wf(),
            r.writers@.len() == 0,
            r.files_to_finish@.len() == 0,
            r.max_file_index == 0,
            r.subtask_id == 0,
            r.path@ == path@,
            r.accepted@ == Seq::<Seq<u8>>::empty(),
            r.file_records@ == Seq::<Seq<Seq<u8>>>::empty(),
    {
        let rolling_policy = match &properties.file_settings {
            Some(fs) => RollingPolicy::from_file_settings(fs),
            None => vstd::pervasive::unreached(),
        };
        MultipartFileSystemWriter {
            path,
            current_writer_name: String::new(),
            max_file_index: 0,
            subtask_id: 0,
            writers: Vec::new(),
            files_to_finish: Vec::new(),
            properties,
            rolling_policy,
            writer_indices: Ghost(Seq::empty()),
            file_records: Ghost(Seq::empty()),
            record_pos: Ghost(Seq::empty()),
            accepted: Ghost(Seq::empty()),
            finish_indices: Ghost(Seq::empty()),
        }
    }

    /// The position of the writer named `name`, if any.
    fn find_writer(&self, name: &String) -> (r: Option<usize>)
        ensures
            r matches Some(i) ==> i < self.writers@.len() && self.writers@[i as int].0@ == name@,
            r is None ==> forall|i: int|
                0 <= i < self.writers@.len() ==> (#[trigger] self.writers@[i]).0@ != name@,
    {
        let mut i: usize = 0;
        #[verifier::loop_isolation(false)]
        while i < self.writers.len()
            invariant
                0 <= i <= self.writers@.len(),
                forall|j: int| 0 <= j < i ==> (#[trigger] self.writers@[j]).0@ != name@,
            decreases self.writers@.len() - i,
        {
            if self.writers[i].0.eq(name) {
                return Some(i);
            }
            i = i + 1;
        }
        None
    }

    /// Creates the writer for the current `max_file_index` and makes it
    /// current.  The new file index must not collide with a live
    /// writer's; rolling guarantees that by raising `max_file_index`
    /// first.
    fn open_new_writer(&mut self)
        requires
            old(self).wf(),
            forall|i: int|
                0 <= i < old(self).writer_indices@.len() ==> #[trigger] old(
                    self,
                ).writer_indices@[i] < old(self).max_file_index,
        ensures
            final(self).wf(),
            final(self).path@ == old(self).path@,
            final(self).max_file_index == old(self).max_file_index,
            final(self).subtask_id == old(self).subtask_id,
            final(self).files_to_finish@ == old(self).files_to_finish@,
            final(self).finish_indices@ == old(self).finish_indices@,
            final(self).accepted@ == old(self).accepted@,
            final(self).file_records@ == old(self).file_records@.push(Seq::<Seq<u8>>::empty()),
            final(self).writers@.len() == old(self).writers@.len() + 1,
            forall|i: int|
                0 <= i < old(self).writers@.len() ==> final(self).writers@[i]
                    == old(self).writers@[i],
            final(self).writers@.last().1.records@ == Seq::<Seq<u8>>::empty(),
            !final(self).writers@.last().1.multipart_manager.closed,
            final(self).writers@.last().1.multipart_manager.multipart_id is None,
            final(self).current_writer_name@ == final(self).writers@.last().0@,
    {
        let name_base = format_file_name(&self.path, self.max_file_index, self.subtask_id);
        let writer: BatchMultipartWriter<BB, BBW> = BatchMultipartWriter::new(
            name_base,
            &self.properties,
        );
        let name = writer.name();
        self.current_writer_name = name.clone();
        proof {
            // the fresh file index gives a name no live writer carries
            assert forall|i: int|
                0 <= i < self.writers@.len()
                    implies (#[trigger] self.writers@[i]).0@ != name@ by {
                Self::lemma_full_names_distinct(
                    self.path@,
                    self.writer_indices@[i],
                    self.max_file_index as int,
                    self.subtask_id as int,
                );
            }
            self.writer_indices@ = self.writer_indices@.push(self.max_file_index as int);
            lemma_concat_records_push_empty(self.file_records@);
            self.record_pos@ = self.record_pos@.push(self.file_records@.len() as int);
            self.file_records@ = self.file_records@.push(Seq::empty());
        }
        self.writers.push((name, writer));
    }

    /// Initializes the actor for a (re)started subtask: records the
    /// file index to continue from and the subtask id, and opens the
    /// first writer.  The recovered files of the prior epoch come back
    /// as recovery plans for the driver to execute; records that were
    /// only buffered (never bytes on the store) are re-fed into the new
    /// current writer.
    ///
    /// Initialization is the protocol's first message; one arriving
    /// with writers or tokens already live is a protocol violation and
    /// is rejected as fatal.  Accepting it could hand the fresh writer
    /// a file index a live writer already uses, and no two live
    /// writers may ever share a file handle.
    pub fn handle_init(
        &mut self,
        max_file_index: usize,
        subtask_id: usize,
        recovered_files: Vec<InProgressFileCheckpoint>,
        now_millis: u64,
    ) -> (r: Result<(Vec<MultipartAction>, Vec<RecoveryPlan>), ActorError>)
        requires
            old(self).wf(),
        ensures
            r is Err <==> old(self).writers@.len() > 0 || old(self).files_to_finish@.len() > 0,
            r is Err ==> *final(self) == *old(self),
            r is Ok ==> final(self).wf() && final(self).max_file_index == max_file_index
                && final(self).subtask_id == subtask_id && final(self).writers@.len() == 1
                && final(self).files_to_finish@.len() == 0
                // no buffered record of the recovered files is lost:
                // all of them, in order, are the new writer's records
                && final(self).writers@[0].1.records@ == spec_all_buffered(recovered_files@)
                && final(self).accepted@ == old(self).accepted@ + spec_all_buffered(
                recovered_files@,
            ) && !final(self).writers@[0].1.multipart_manager.closed,
            // no recovered file is dropped: one plan per non-empty
            // snapshot, in order, each with the recovery properties
            // that snapshot demands
            r matches Ok(out) ==> out.1@.len() == spec_nonempty_checkpoints(
                recovered_files@,
            ).len() && (forall|k: int|
                0 <= k < out.1@.len() ==> spec_plan_for(
                    spec_nonempty_checkpoints(recovered_files@)[k].filename@,
                    spec_nonempty_checkpoints(recovered_files@)[k].data,
                    #[trigger] out.1@[k],
                )),
    {
        if self.writers.len() > 0 || self.files_to_finish.len() > 0 {
            return Err(ActorError::AlreadyInitialized);
        }
        self.max_file_index = max_file_index;
        self.subtask_id = subtask_id;
        let ghost f0 = self.file_records@;
        self.open_new_writer();
        let mut actions: Vec<MultipartAction> = Vec::new();
        let mut plans: Vec<RecoveryPlan> = Vec::new();
        let mut fi: usize = 0;
        let n = recovered_files.len();
        let ghost input = recovered_files@;
        let mut recovered_files = recovered_files;
        proof {
            assert(input.take(0) =~= Seq::<InProgressFileCheckpoint>::empty());
        }
        #[verifier::loop_isolation(false)]
        while fi < n
            invariant
                0 <= fi <= n,
                self.wf(),
                input.len() == n,
                recovered_files@ == input.skip(fi as int),
                self.max_file_index == max_file_index,
                self.subtask_id == subtask_id,
                self.writers@.len() == 1,
                self.files_to_finish@.len() == 0,
                !self.writers@[0].1.multipart_manager.closed,
                self.writers@[0].0@ == self.current_writer_name@,
                self.file_records@ == f0.push(self.writers@[0].1.records@),
                self.writers@[0].1.records@ == spec_all_buffered(input.take(fi as int)),
                plans@.len() == spec_nonempty_checkpoints(input.take(fi as int)).len(),
                forall|k: int|
                    0 <= k < plans@.len() ==> spec_plan_for(
                        spec_nonempty_checkpoints(input.take(fi as int))[k].filename@,
                        spec_nonempty_checkpoints(input.take(fi as int))[k].data,
                        #[trigger] plans@[k],
                    ),
            decreases n - fi,
        {
            proof {
                assert(input.skip(fi as int)[0] == input[fi as int]);
                assert(input.skip(fi as int).remove(0) =~= input.skip(fi as int + 1));
                assert(input.take(fi as int).push(input[fi as int]) =~= input.take(fi as int + 1));
                lemma_all_buffered_push(input.take(fi as int), input[fi as int]);
                lemma_nonempty_checkpoints_push(input.take(fi as int), input[fi as int]);
            }
            let recovered_file = recovered_files.remove(0);
            let ghost bd = recovered_file.buffered_data.deep_view();
            if let Some(plan) = plan_recovery(recovered_file.filename, recovered_file.data) {
                plans.push(plan);
            }
            let mut buffered = recovered_file.buffered_data;
            let ghost total: int = bd.len() as int;
            proof {
                assert(bd.len() == buffered@.len());
                assert(bd.skip(0) =~= bd);
                assert(bd.take(0) =~= Seq::<Seq<u8>>::empty());
                assert(spec_all_buffered(input.take(fi as int)) + Seq::<Seq<u8>>::empty()
                    =~= spec_all_buffered(input.take(fi as int)));
            }
            #[verifier::loop_isolation(false)]
            while buffered.len() > 0
                invariant
                    self.wf(),
                    self.max_file_index == max_file_index,
                    self.subtask_id == subtask_id,
                    self.writers@.len() == 1,
                    self.files_to_finish@.len() == 0,
                    !self.writers@[0].1.multipart_manager.closed,
                    self.writers@[0].0@ == self.current_writer_name@,
                    self.file_records@ == f0.push(self.writers@[0].1.records@),
                    total == bd.len(),
                    buffered@.len() <= total,
                    buffered.deep_view() == bd.skip(total - buffered@.len()),
                    self.writers@[0].1.records@ == spec_all_buffered(input.take(fi as int))
                        + bd.take(total - buffered@.len()),
                decreases buffered@.len(),
            {
                let ghost consumed: int = total - buffered@.len();
                let ghost old_buffered = buffered@;
                proof {
                    assert(buffered.deep_view()[0] == buffered@[0].deep_view());
                    assert(buffered@[0].deep_view() =~= buffered@[0]@);
                    assert(bd.skip(consumed)[0] == bd[consumed]);
                    assert(buffered@[0]@ == bd[consumed]);
                    assert(bd.take(consumed).push(bd[consumed]) =~= bd.take(consumed + 1));
                }
                let value = buffered.remove(0);
                proof {
                    assert(value@ == bd[consumed]);
                    assert forall|i: int| 0 <= i < buffered@.len() implies #[trigger] buffered.deep_view()[i]
                        == bd.skip(consumed + 1)[i] by {
                        assert(buffered@[i] == old_buffered[i + 1]);
                        assert(buffered.deep_view()[i] == buffered@[i].deep_view());
                        assert(Seq::new(old_buffered.len(), |k: int| old_buffered[k].deep_view())[i + 1]
                            == old_buffered[i + 1].deep_view());
                        assert(bd.skip(consumed)[i + 1] == bd[consumed + 1 + i]);
                        assert(bd.skip(consumed + 1)[i] == bd[consumed + 1 + i]);
                    }
                    assert(buffered.deep_view() =~= bd.skip(consumed + 1));
                }
                let ghost records0 = self.writers@[0].1.records@;
                proof {
                    assert(self.record_pos@[0] == self.file_records@.len() - 1);
                    assert(self.file_records@.last() == records0);
                    lemma_concat_records_append_last(self.file_records@, bd[consumed]);
                }
                let ghost p0 = self.record_pos@[0];
                let act = self.writers[0].1.insert_value(value, now_millis);
                proof {
                    assert(self.writers@[0].1.records@ == records0.push(bd[consumed]));
                    assert(records0.push(bd[consumed]) =~= spec_all_buffered(input.take(fi as int))
                        + bd.take(consumed + 1));
                    self.file_records@ = self.file_records@.update(
                        p0,
                        self.file_records@.last().push(bd[consumed]),
                    );
                    self.accepted@ = self.accepted@.push(bd[consumed]);
                    assert(self.file_records@ =~= f0.push(self.writers@[0].1.records@));
                }
                if let Some(act) = act {
                    actions.push(act);
                }
            }
            proof {
                assert(bd.take(total) =~= bd);
            }
            fi = fi + 1;
        }
        proof {
            assert(input.take(n as int) =~= input);
            assert(self.file_records@.drop_last() =~= f0);
            assert(spec_concat_records(self.file_records@) == spec_concat_records(f0)
                + self.writers@[0].1.records@);
            assert(self.accepted@ == old(self).accepted@ + spec_all_buffered(input));
        }
        Ok((actions, plans))
    }

    /// Forwards one record to the current writer.
    pub fn handle_data(&mut self, value: Vec<u8>, now_millis: u64) -> (r: Result<
        Option<MultipartAction>,
        ActorError,
    >)
        requires
            old(self).wf(),
        ensures
            final(self).wf(),
            final(self).max_file_index == old(self).max_file_index,
            final(self).files_to_finish@ == old(self).files_to_finish@,
            r is Err ==> *final(self) == *old(self),
            // the record is rejected exactly when no open current
            // writer exists
            r is Err <==> !(exists|i: int|
                0 <= i < old(self).writers@.len() && (#[trigger] old(self).writers@[i]).0@
                    == old(self).current_writer_name@
                    && !old(self).writers@[i].1.multipart_manager.closed),
            // every accepted record is accounted for, in order
            r is Ok ==> final(self).accepted@ == old(self).accepted@.push(value@),
            // the record reaches exactly the current writer; every
            // other writer is untouched; an evicted part becomes the
            // file's next part, with the store action that uploads
            // exactly it
            r is Ok ==> final(self).writers@.len() == old(self).writers@.len() && (exists|i: int|
                0 <= i < old(self).writers@.len() && (#[trigger] old(self).writers@[i]).0@
                    == old(self).current_writer_name@ && final(self).writers@[i].1.records@
                    == old(self).writers@[i].1.records@.push(value@) && spec_part_outcome(
                    old(self).writers@[i].1.multipart_manager,
                    final(self).writers@[i].1.multipart_manager,
                    r->Ok_0,
                ) && (forall|j: int|
                    0 <= j < old(self).writers@.len() && j != i ==> final(self).writers@[j]
                        == old(self).writers@[j])),
    {
        let name = self.current_writer_name.clone();
        let idx = match self.find_writer(&name) {
            Some(idx) => idx,
            None => {
                return Err(ActorError::CurrentWriterMissing);
            },
        };
        proof {
            assert forall|i: int|
                0 <= i < self.writers@.len() && i != idx
                    implies (#[trigger] self.writers@[i]).0@ != self.current_writer_name@ by {
                if i < idx {
                    self.lemma_writer_names_distinct(i, idx as int);
                } else {
                    self.lemma_writer_names_distinct(idx as int, i);
                }
            }
        }
        if self.writers[idx].1.multipart_manager.closed {
            return Err(ActorError::CurrentWriterMissing);
        }
        let ghost value_view = value@;
        let ghost p = self.record_pos@[idx as int];
        proof {
            assert(p == self.file_records@.len() - 1);
            assert(self.file_records@.last() == self.writers@[idx as int].1.records@);
            lemma_concat_records_append_last(self.file_records@, value_view);
            assert forall|i: int|
                0 <= i < self.record_pos@.len() && i != idx implies self.record_pos@[i] < p by {
                if i < idx {
                } else {
                    assert(self.record_pos@[idx as int] < self.record_pos@[i]);
                    assert(self.record_pos@[i] < self.file_records@.len());
                }
            }
        }
        let act = self.writers[idx].1.insert_value(value, now_millis);
        proof {
            assert(self.writers@[idx as int].1.records@
                == old(self).writers@[idx as int].1.records@.push(value_view));
            self.file_records@ = self.file_records@.update(
                p,
                self.file_records@.last().push(value_view),
            );
            self.accepted@ = self.accepted@.push(value_view);
        }
        Ok(act)
    }

    /// One rolling-policy tick: when the current writer's statistics
    /// satisfy the policy, the writer is closed, the file index moves
    /// on, and a fresh writer is opened.
    pub fn handle_tick(&mut self, now_millis: u64) -> (r: Vec<MultipartAction>)
        requires
            old(self).wf(),
            old(self).max_file_index < usize::MAX,
        ensures
            final(self).wf(),
            final(self).files_to_finish@ == old(self).files_to_finish@,
            old(self).max_file_index <= final(self).max_file_index
                <= old(self).max_file_index + 1,
            // the hard-ceiling guarantee, per tick: when the current
            // writer's statistics satisfy the policy, the writer is
            // closed and the file index moves on
            forall|i: int|
                (0 <= i < old(self).writers@.len()
                    && (#[trigger] old(self).writers@[i]).0@ == old(self).current_writer_name@
                    && !old(self).writers@[i].1.multipart_manager.closed
                    && old(self).writers@[i].1.stats is Some
                    && old(self).rolling_policy.spec_should_roll(
                    old(self).writers@[i].1.stats->0,
                    now_millis,
                ))
                    ==> (final(self).max_file_index == old(self).max_file_index + 1
                    && final(self).writers@[i].1.multipart_manager.closed
                    // the closing transition holds, and its store
                    // action — the final part's upload, when one was
                    // evicted — is exactly what this tick returns
                    && (exists|a: Option<MultipartAction>|
                        #[trigger] BatchMultipartWriter::<BB, BBW>::spec_close_outcome(
                            old(self).writers@[i].1,
                            final(self).writers@[i].1,
                            a,
                        ) && r@ == (match a {
                            Some(x) => seq![x],
                            None => Seq::<MultipartAction>::empty(),
                        }))),
            // and only then: when no open current writer's statistics
            // satisfy the policy, nothing changes and no action is owed
            (!(exists|i: int|
                0 <= i < old(self).writers@.len() && (#[trigger] old(self).writers@[i]).0@
                    == old(self).current_writer_name@
                    && !old(self).writers@[i].1.multipart_manager.closed
                    && old(self).writers@[i].1.stats is Some
                    && old(self).rolling_policy.spec_should_roll(
                    old(self).writers@[i].1.stats->0,
                    now_millis,
                ))) ==> *final(self) == *old(self) && r@.len() == 0,
    {
        let mut actions: Vec<MultipartAction> = Vec::new();
        let name = self.current_writer_name.clone();
        let idx = match self.find_writer(&name) {
            Some(idx) => idx,
            None => {
                return actions;
            },
        };
        proof {
            // the writer names are distinct, so `idx` is the only
            // position carrying the current writer's name
            assert forall|i: int|
                0 <= i < self.writers@.len() && i != idx
                    implies (#[trigger] self.writers@[i]).0@ != self.current_writer_name@ by {
                if i < idx {
                    self.lemma_writer_names_distinct(i, idx as int);
                } else {
                    self.lemma_writer_names_distinct(idx as int, i);
                }
            }
        }
        if self.writers[idx].1.multipart_manager.closed {
            return actions;
        }
        let stats = self.writers[idx].1.stats();
        let stats = match stats {
            Some(stats) => stats,
            None => {
                return actions;
            },
        };
        if self.rolling_policy.should_roll(&stats, now_millis) {
            let act = self.writers[idx].1.close();
            let ghost close_act = act;
            if let Some(act) = act {
                actions.push(act);
            }
            proof {
                assert(r_matches_close_act(actions@, close_act));
            }
            self.max_file_index = self.max_file_index + 1;
            self.open_new_writer();
        }
        actions
    }

    /// Closes the current writer, if it is still open: the stopping
    /// half of a final checkpoint.
    pub fn close_current(&mut self) -> (r: Vec<MultipartAction>)
        requires
            old(self).wf(),
        ensures
            final(self).wf(),
            final(self).max_file_index == old(self).max_file_index,
            final(self).files_to_finish@ == old(self).files_to_finish@,
            final(self).writers@.len() == old(self).writers@.len(),
            // the current writer ends closed, with all its records in
            // its parts; every other writer is untouched
            forall|i: int|
                (0 <= i < old(self).writers@.len() && (#[trigger] old(self).writers@[i]).0@
                    == old(self).current_writer_name@)
                    ==> final(self).writers@[i].1.multipart_manager.closed
                    && final(self).writers@[i].1.records@ == old(self).writers@[i].1.records@,
            forall|i: int|
                (0 <= i < old(self).writers@.len() && (#[trigger] old(self).writers@[i]).0@
                    != old(self).current_writer_name@) ==> final(self).writers@[i]
                    == old(self).writers@[i],
            // when the current writer was still open, its closing
            // transition holds and its store action is exactly what is
            // returned; otherwise nothing changes and no action is owed
            forall|i: int|
                (0 <= i < old(self).writers@.len() && (#[trigger] old(self).writers@[i]).0@
                    == old(self).current_writer_name@
                    && !old(self).writers@[i].1.multipart_manager.closed)
                    ==> (exists|a: Option<MultipartAction>|
                    #[trigger] BatchMultipartWriter::<BB, BBW>::spec_close_outcome(
                        old(self).writers@[i].1,
                        final(self).writers@[i].1,
                        a,
                    ) && r_matches_close_act(r@, a)),
            (!(exists|i: int|
                0 <= i < old(self).writers@.len() && (#[trigger] old(self).writers@[i]).0@
                    == old(self).current_writer_name@
                    && !old(self).writers@[i].1.multipart_manager.closed))
                ==> *final(self) == *old(self) && r@.len() == 0,
    {
        let mut actions: Vec<MultipartAction> = Vec::new();
        let name = self.current_writer_name.clone();
        if let Some(idx) = self.find_writer(&name) {
            proof {
                assert forall|i: int|
                    0 <= i < self.writers@.len() && i != idx
                        implies (#[trigger] self.writers@[i]).0@ != self.current_writer_name@ by {
                    if i < idx {
                        self.lemma_writer_names_distinct(i, idx as int);
                    } else {
                        self.lemma_writer_names_distinct(idx as int, i);
                    }
                }
            }
            if !self.writers[idx].1.multipart_manager.closed {
                let act = self.writers[idx].1.close();
                let ghost close_act = act;
                if let Some(act) = act {
                    actions.push(act);
                }
                proof {
                    assert(r_matches_close_act(actions@, close_act));
                    assert(BatchMultipartWriter::<BB, BBW>::spec_close_outcome(
                        old(self).writers@[idx as int].1,
                        self.writers@[idx as int].1,
                        close_act,
                    ));
                }
            }
        }
        actions
    }

    /// Whether a callback does not fit a writer's state: an upload id
    /// for a writer that already has one, an acknowledgement for a part
    /// that is out of range or already acknowledged, or a finish signal
    /// for a started file with acknowledgements still outstanding.
    pub open spec fn spec_callback_mismatch(
        w: BatchMultipartWriter<BB, BBW>,
        callback: MultipartCallback,
    ) -> bool {
        match callback {
            MultipartCallback::InitializedMultipart { .. } => w.multipart_manager.multipart_id
                is Some,
            MultipartCallback::CompletedPart { part_idx, .. } => part_idx
                >= w.multipart_manager.pushed_parts@.len() || !(
            w.multipart_manager.pushed_parts@[part_idx as int] is BufferedData),
            MultipartCallback::UploadsFinished => w.multipart_manager.multipart_id is Some
                && !w.multipart_manager.spec_all_uploads_finished(),
        }
    }

    /// Dispatching an upload id to the writer at position `i`: the
    /// manager's initialization transition runs and the returned
    /// actions are exactly the queued parts' uploads.
    pub open spec fn spec_dispatched_init(
        pre: Self,
        post: Self,
        i: int,
        multipart_id: Seq<char>,
        acts: Seq<MultipartAction>,
    ) -> bool {
        let w0 = pre.writers@[i].1;
        &&& post.writers@.len() == pre.writers@.len()
        &&& (forall|j: int|
            0 <= j < pre.writers@.len() && j != i ==> post.writers@[j] == pre.writers@[j])
        &&& post.writers@[i].0 == pre.writers@[i].0
        &&& post.writers@[i].1.records@ == w0.records@
        &&& MultipartManager::spec_init_transition(
            w0.multipart_manager,
            post.writers@[i].1.multipart_manager,
            multipart_id,
            acts,
        )
        &&& post.files_to_finish@ == pre.files_to_finish@
    }

    /// Dispatching a part acknowledgement to the writer at position
    /// `i`: the slot is marked; when it was the last one outstanding on
    /// the closed file, the writer leaves the live set and its token —
    /// upload id and every content id in part order — is appended.
    pub open spec fn spec_dispatched_completed(
        pre: Self,
        post: Self,
        i: int,
        part_idx: int,
        upload_part: UploadedPart,
        acts: Seq<MultipartAction>,
    ) -> bool {
        let w0 = pre.writers@[i].1;
        &&& acts.len() == 0
        &&& if w0.multipart_manager.closed && w0.multipart_manager.uploaded_parts + 1
            == w0.multipart_manager.pushed_parts@.len() {
            &&& post.writers@ == pre.writers@.remove(i)
            &&& post.files_to_finish@.len() == pre.files_to_finish@.len() + 1
            &&& (forall|k: int|
                0 <= k < pre.files_to_finish@.len() ==> post.files_to_finish@[k]
                    == pre.files_to_finish@[k])
            &&& MultipartManager::spec_completed_token(
                w0.multipart_manager,
                part_idx,
                upload_part,
                post.files_to_finish@.last(),
            )
        } else {
            &&& post.writers@.len() == pre.writers@.len()
            &&& (forall|j: int|
                0 <= j < pre.writers@.len() && j != i ==> post.writers@[j] == pre.writers@[j])
            &&& post.writers@[i].0 == pre.writers@[i].0
            &&& post.writers@[i].1.records@ == w0.records@
            &&& post.writers@[i].1.multipart_manager.pushed_parts@
                == w0.multipart_manager.pushed_parts@.update(
                part_idx,
                UploadPartOrBufferedData::UploadPart(upload_part),
            )
            &&& post.writers@[i].1.multipart_manager.uploaded_parts
                == w0.multipart_manager.uploaded_parts + 1
            &&& post.writers@[i].1.multipart_manager.multipart_id
                == w0.multipart_manager.multipart_id
            &&& post.writers@[i].1.multipart_manager.part_bytes@
                == w0.multipart_manager.part_bytes@
            &&& post.files_to_finish@ == pre.files_to_finish@
        }
    }

    /// Dispatching a finish signal to the writer at position `i`: it
    /// leaves the live set, with its full pre-commit token when the
    /// file ever reached the store and silently otherwise.
    pub open spec fn spec_dispatched_finished(
        pre: Self,
        post: Self,
        i: int,
        acts: Seq<MultipartAction>,
    ) -> bool {
        let w0 = pre.writers@[i].1;
        &&& acts.len() == 0
        &&& post.writers@ == pre.writers@.remove(i)
        &&& if w0.multipart_manager.multipart_id is Some {
            &&& post.files_to_finish@.len() == pre.files_to_finish@.len() + 1
            &&& (forall|k: int|
                0 <= k < pre.files_to_finish@.len() ==> post.files_to_finish@[k]
                    == pre.files_to_finish@[k])
            &&& w0.multipart_manager.spec_finish_of(post.files_to_finish@.last())
        } else {
            post.files_to_finish@ == pre.files_to_finish@
        }
    }

    /// Dispatches one store callback to the writer it names.  A writer
    /// whose uploads are all acknowledged yields its pre-commit token
    /// and leaves the live set; an empty file (never started on the
    /// store) is simply dropped.
    pub fn process_callback(&mut self, name: String, callback: MultipartCallback) -> (r: Result<
        Vec<MultipartAction>,
        ActorError,
    >)
        requires
            old(self).wf(),
        ensures
            final(self).wf(),
            final(self).max_file_index == old(self).max_file_index,
            r is Err ==> *final(self) == *old(self),
            // a callback is rejected exactly when it names no live
            // writer or does not fit that writer's state
            r is Err <==> (forall|i: int|
                0 <= i < old(self).writers@.len() ==> (#[trigger] old(self).writers@[i]).0@
                    != name@) || (exists|i: int|
                0 <= i < old(self).writers@.len() && (#[trigger] old(self).writers@[i]).0@ == name@
                    && Self::spec_callback_mismatch(old(self).writers@[i].1, callback)),
            // a checkpoint never loses a pending token
            r is Ok ==> final(self).files_to_finish@.len() >= old(self).files_to_finish@.len()
                && (forall|k: int|
                0 <= k < old(self).files_to_finish@.len() ==> final(self).files_to_finish@[k]
                    == old(self).files_to_finish@[k]),
            // a token yielded here belongs to the file the callback
            // named
            (r is Ok && final(self).files_to_finish@.len() > old(self).files_to_finish@.len())
                ==> final(self).files_to_finish@.last().filename@ == name@,
            // on success, the callback was dispatched to the writer it
            // names, with the exact per-kind effects and actions
            r matches Ok(acts) ==> (exists|i: int|
                0 <= i < old(self).writers@.len() && (#[trigger] old(self).writers@[i]).0@
                    == name@ && (match callback {
                    MultipartCallback::InitializedMultipart { multipart_id } => Self::spec_dispatched_init(
                        *old(self),
                        *final(self),
                        i,
                        multipart_id@,
                        acts@,
                    ),
                    MultipartCallback::CompletedPart { part_idx, upload_part } => Self::spec_dispatched_completed(
                        *old(self),
                        *final(self),
                        i,
                        part_idx as int,
                        upload_part,
                        acts@,
                    ),
                    MultipartCallback::UploadsFinished => Self::spec_dispatched_finished(
                        *old(self),
                        *final(self),
                        i,
                        acts@,
                    ),
                })),
    {
        let ghost cb = callback;
        let idx = match self.find_writer(&name) {
            Some(idx) => idx,
            None => {
                return Err(ActorError::MissingWriter { name });
            },
        };
        proof {
            assert forall|i: int|
                0 <= i < self.writers@.len() && i != idx
                    implies (#[trigger] self.writers@[i]).0@ != name@ by {
                if i < idx {
                    self.lemma_writer_names_distinct(i, idx as int);
                } else {
                    self.lemma_writer_names_distinct(idx as int, i);
                }
            }
        }
        let mut actions: Vec<MultipartAction> = Vec::new();
        match callback {
            MultipartCallback::InitializedMultipart { multipart_id } => {
                if self.writers[idx].1.multipart_manager.multipart_id.is_some() {
                    return Err(ActorError::UnexpectedCallback { name });
                }
                let acts = self.writers[idx].1.handle_initialization(multipart_id);
                proof {
                    assert(Self::spec_dispatched_init(
                        *old(self),
                        *self,
                        idx as int,
                        cb->InitializedMultipart_multipart_id@,
                        acts@,
                    ));
                }
                actions = acts;
                Ok(actions)
            },
            MultipartCallback::CompletedPart { part_idx, upload_part } => {
                if part_idx >= self.writers[idx].1.multipart_manager.pushed_parts.len() {
                    return Err(ActorError::UnexpectedCallback { name });
                }
                let slot_buffered = match &self.writers[idx].1.multipart_manager.pushed_parts[part_idx] {
                    crate::multipart::UploadPartOrBufferedData::BufferedData { .. } => true,
                    crate::multipart::UploadPartOrBufferedData::UploadPart(..) => false,
                };
                if !slot_buffered {
                    return Err(ActorError::UnexpectedCallback { name });
                }
                let ghost upload_part_ghost = upload_part;
                if let Some(file_to_finish) = self.writers[idx].1.handle_completed_part(
                    part_idx,
                    upload_part,
                ) {
                    // the file must be checkpointed before it is finished
                    proof {
                        self.finish_indices@ = self.finish_indices@.push(
                            self.writer_indices@[idx as int],
                        );
                        self.writer_indices@ = self.writer_indices@.remove(idx as int);
                        self.record_pos@ = self.record_pos@.remove(idx as int);
                    }
                    self.files_to_finish.push(file_to_finish);
                    self.writers.remove(idx);
                    proof {
                        assert(self.writers@ =~= old(self).writers@.remove(idx as int));
                        assert(Self::spec_dispatched_completed(
                            *old(self),
                            *self,
                            idx as int,
                            part_idx as int,
                            cb->CompletedPart_upload_part,
                            actions@,
                        ));
                    }
                } else {
                    proof {
                        let w0 = old(self).writers@[idx as int].1;
                        assert(self.writers@[idx as int].1.multipart_manager.pushed_parts@.len()
                            == w0.multipart_manager.pushed_parts@.len());
                        assert(!(w0.multipart_manager.closed && w0.multipart_manager.uploaded_parts
                            + 1 == w0.multipart_manager.pushed_parts@.len()));
                        assert(cb->CompletedPart_upload_part == upload_part_ghost);
                        assert(Self::spec_dispatched_completed(
                            *old(self),
                            *self,
                            idx as int,
                            part_idx as int,
                            cb->CompletedPart_upload_part,
                            actions@,
                        ));
                    }
                }
                Ok(actions)
            },
            MultipartCallback::UploadsFinished => {
                if self.writers[idx].1.multipart_manager.multipart_id.is_none() {
                    // an empty file: nothing ever reached the store, so
                    // there is nothing to finish
                    proof {
                        self.writer_indices@ = self.writer_indices@.remove(idx as int);
                        self.record_pos@ = self.record_pos@.remove(idx as int);
                    }
                    self.writers.remove(idx);
                    proof {
                        assert(Self::spec_dispatched_finished(*old(self), *self, idx as int, actions@));
                    }
                    return Ok(actions);
                }
                if !self.writers[idx].1.multipart_manager.all_uploads_finished() {
                    return Err(ActorError::UnexpectedCallback { name });
                }
                let file_to_finish = self.writers[idx].1.get_finished_file();
                proof {
                    self.finish_indices@ = self.finish_indices@.push(
                        self.writer_indices@[idx as int],
                    );
                    self.writer_indices@ = self.writer_indices@.remove(idx as int);
                    self.record_pos@ = self.record_pos@.remove(idx as int);
                }
                self.files_to_finish.push(file_to_finish);
                self.writers.remove(idx);
                proof {
                    assert(Self::spec_dispatched_finished(*old(self), *self, idx as int, actions@));
                }
                Ok(actions)
            },
        }
    }

    /// Records one recovered pre-commit token so the next checkpoint
    /// carries it.
    pub fn add_part_to_finish(&mut self, file_to_finish: FileToFinish)
        requires
            old(self).wf(),
        ensures
            final(self).wf(),
            final(self).max_file_index == old(self).max_file_index,
            final(self).files_to_finish@ == old(self).files_to_finish@.push(file_to_finish),
    {
        proof {
            self.finish_indices@ = self.finish_indices@.push(-1);
        }
        self.files_to_finish.push(file_to_finish);
    }

    /// Projects the whole state into checkpoint artifacts: one snapshot
    /// per live writer, one completed-upload snapshot per pending
    /// token, and the closing `Finished` with the index to continue
    /// from.  The pending tokens are handed off to this checkpoint and
    /// cleared.
    pub fn take_checkpoint(&mut self) -> (r: Vec<CheckpointData>)
        requires
            old(self).wf(),
        ensures
            final(self).wf(),
            final(self).max_file_index == old(self).max_file_index,
            final(self).writers@ == old(self).writers@,
            final(self).files_to_finish@.len() == 0,
            r@.len() == old(self).writers@.len() + old(self).files_to_finish@.len() + 1,
            r@.last() matches CheckpointData::Finished { max_file_index } && max_file_index
                == old(self).max_file_index,
            forall|i: int|
                0 <= i < old(self).writers@.len() ==> ((#[trigger] r@[i]) matches
                    CheckpointData::InProgressFileCheckpoint(c) && c.filename@
                    == old(self).writers@[i].0@ && old(self).writers@[i].1.spec_checkpoint_of(c.data)
                    && c.buffered_data.deep_view()
                    == old(self).writers@[i].1.batch_builder.buffered()),
            forall|i: int|
                0 <= i < old(self).files_to_finish@.len() ==> ((#[trigger] r@[
                    old(self).writers@.len() + i
                ]) matches CheckpointData::InProgressFileCheckpoint(c) && c.filename@
                    == old(self).files_to_finish@[i].filename@ && (c.data matches
                    FileCheckpointData::MultiPartWriterUploadCompleted {
                    multi_part_upload_id,
                    completed_parts,
                } && multi_part_upload_id@ == old(self).files_to_finish@[i].multi_part_upload_id@
                    && completed_parts@ == old(self).files_to_finish@[i].completed_parts@)),
    {
        let mut r: Vec<CheckpointData> = Vec::new();
        let mut i: usize = 0;
        let n = self.writers.len();
        #[verifier::loop_isolation(false)]
        while i < n
            invariant
                0 <= i <= n,
                n == self.writers@.len(),
                r@.len() == i,
                forall|j: int|
                    0 <= j < i ==> ((#[trigger] r@[j]) matches
                        CheckpointData::InProgressFileCheckpoint(c) && c.filename@
                        == self.writers@[j].0@ && self.writers@[j].1.spec_checkpoint_of(c.data)
                        && c.buffered_data.deep_view()
                        == self.writers@[j].1.batch_builder.buffered()),
            decreases n - i,
        {
            let filename = self.writers[i].1.name();
            let data = self.writers[i].1.get_in_progress_checkpoint();
            let buffered_data = self.writers[i].1.currently_buffered_data();
            proof {
                assert(filename@ == self.writers@[i as int].0@);
            }
            r.push(CheckpointData::InProgressFileCheckpoint(InProgressFileCheckpoint {
                filename,
                data,
                buffered_data,
            }));
            i = i + 1;
        }
        let mut k: usize = 0;
        let m = self.files_to_finish.len();
        #[verifier::loop_isolation(false)]
        while k < m
            invariant
                0 <= k <= m,
                m == self.files_to_finish@.len(),
                r@.len() == n + k,
                n == self.writers@.len(),
                forall|j: int|
                    0 <= j < n ==> ((#[trigger] r@[j]) matches
                        CheckpointData::InProgressFileCheckpoint(c) && c.filename@
                        == self.writers@[j].0@ && self.writers@[j].1.spec_checkpoint_of(c.data)
                        && c.buffered_data.deep_view()
                        == self.writers@[j].1.batch_builder.buffered()),
                forall|j: int|
                    0 <= j < k ==> ((#[trigger] r@[n + j]) matches
                        CheckpointData::InProgressFileCheckpoint(c) && c.filename@
                        == self.files_to_finish@[j].filename@ && (c.data matches
                        FileCheckpointData::MultiPartWriterUploadCompleted {
                        multi_part_upload_id,
                        completed_parts,
                    } && multi_part_upload_id@ == self.files_to_finish@[j].multi_part_upload_id@
                        && completed_parts@ == self.files_to_finish@[j].completed_parts@)),
            decreases m - k,
        {
            let f = &self.files_to_finish[k];
            let filename = f.filename.clone();
            let multi_part_upload_id = f.multi_part_upload_id.clone();
            let completed_parts = f.completed_parts.clone();
            proof {
                assert(completed_parts@ =~= self.files_to_finish@[k as int].completed_parts@);
            }
            r.push(CheckpointData::InProgressFileCheckpoint(InProgressFileCheckpoint {
                filename,
                data: FileCheckpointData::MultiPartWriterUploadCompleted {
                    multi_part_upload_id,
                    completed_parts,
                },
                buffered_data: Vec::new(),
            }));
            k = k + 1;
        }
        self.files_to_finish = Vec::new();
        proof {
            self.finish_indices@ = Seq::empty();
        }
        r.push(CheckpointData::Finished { max_file_index: self.max_file_index });
        r
    }

    /// Accepts the commit set: each file that still has parts is to be
    /// finalized on the store; a file with no parts is skipped.  A file
    /// that is still an active writer is rejected outright.
    pub fn handle_files_to_finish(&mut self, files_to_finish: Vec<FileToFinish>) -> (r: Result<
        Vec<FileToFinish>,
        ActorError,
    >)
        requires
            old(self).wf(),
        ensures
            final(self).wf(),
            final(self).max_file_index == old(self).max_file_index,
            r matches Ok(fs) ==> fs@ == spec_nonempty_files(files_to_finish@),
            // the commit set is rejected exactly when one of its files
            // is still being written
            r is Err <==> exists|i: int, j: int|
                0 <= i < files_to_finish@.len() && 0 <= j < old(self).writers@.len()
                    && (#[trigger] files_to_finish@[i]).filename@ == (#[trigger] old(
                    self,
                ).writers@[j]).0@,
    {
        let mut out: Vec<FileToFinish> = Vec::new();
        let mut i: usize = 0;
        let n = files_to_finish.len();
        let ghost input = files_to_finish@;
        let mut remaining = files_to_finish;
        #[verifier::loop_isolation(false)]
        while i < n
            invariant
                0 <= i <= n,
                remaining@ == input.skip(i as int),
                input.len() == n,
                out@ == spec_nonempty_files(input.take(i as int)),
                self.writers@ == old(self).writers@,
                forall|i2: int, j: int|
                    0 <= i2 < i && 0 <= j < self.writers@.len()
                        ==> (#[trigger] input[i2]).filename@ != (#[trigger] self.writers@[j]).0@,
            decreases n - i,
        {
            proof {
                assert(input.skip(i as int)[0] == input[i as int]);
                assert(input.skip(i as int).remove(0) =~= input.skip(i as int + 1));
                assert(input.take(i as int).push(input[i as int]) =~= input.take(i as int + 1));
                lemma_nonempty_files_push(input.take(i as int), input[i as int]);
            }
            let f = remaining.remove(0);
            if self.find_writer(&f.filename).is_some() {
                // unspecified by the protocol: a commit for a file that
                // is still being written is rejected
                return Err(ActorError::ActiveWriterConflict { filename: f.filename });
            }
            if f.completed_parts.len() == 0 {
                // nothing was ever uploaded: nothing to finalize
                proof {
                    assert(out@ + Seq::<FileToFinish>::empty() =~= out@);
                }
            } else {
                let ghost out0 = out@;
                out.push(f);
                proof {
                    assert(out0 + seq![input[i as int]] =~= out@);
                }
            }
            i = i + 1;
        }
        proof {
            assert(input.take(n as int) =~= input);
        }
        Ok(out)
    }
}

} // verus!
