//! Recovery from a checkpointed upload state.
//!
//! A restored [`FileCheckpointData`] is turned into a [`RecoveryPlan`]:
//! the list of part uploads the driver must re-perform, and the slot
//! list saying how the file's `completed_parts` are assembled from
//! already-acknowledged content ids and the ids those uploads return.
//! Because every part keeps its recorded index, the re-driven upload is
//! byte-identical to what the original writer would have produced.

use vstd::prelude::*;
use crate::multipart::{
    FileCheckpointData, FileToFinish, InFlightPartCheckpoint, MultipartManager,
    UploadPartOrBufferedData,
};

verus! {

/// One entry of the recovered file's part list: a content id the store
/// already acknowledged, or the id returned by the `k`-th upload of the
/// plan.
#[derive(Debug)]
pub enum RecoverySlot {
    Known(String),
    FromUpload(usize),
}

/// One part upload the driver must perform.
#[derive(Debug)]
pub struct RecoveryUpload {
    pub part_index: usize,
    pub byte_data: Vec<u8>,
}

/// Everything needed to bring one checkpointed file to completion.
#[derive(Debug)]
pub struct RecoveryPlan {
    pub filename: String,
    /// The multipart upload must first be initiated (no id was ever
    /// assigned).
    pub needs_start: bool,
    /// The recorded upload id; present exactly when `needs_start` is
    /// false.
    pub multipart_id: Option<String>,
    /// How to assemble `completed_parts`, one entry per part, in
    /// part-index order.
    pub slots: Vec<RecoverySlot>,
    /// The uploads to perform, in order.
    pub uploads: Vec<RecoveryUpload>,
}

/// The number of `InProgressPart` entries in a checkpointed slot list.
pub open spec fn spec_count_inprogress(s: Seq<InFlightPartCheckpoint>) -> int
    decreases s.len(),
{
    if s.len() == 0 {
        0
    } else {
        spec_count_inprogress(s.drop_last()) + if s.last() is InProgressPart {
            1int
        } else {
            0int
        }
    }
}

/// Appending an entry adds one to the count exactly when it is in
/// progress.
pub proof fn lemma_count_inprogress_push(s: Seq<InFlightPartCheckpoint>, x: InFlightPartCheckpoint)
    ensures
        spec_count_inprogress(s.push(x)) == spec_count_inprogress(s) + if x is InProgressPart {
            1int
        } else {
            0int
        },
{
    assert(s.push(x).drop_last() =~= s);
    assert(s.push(x).last() == x);
}

/// How the slots of a plan relate to the checkpointed entries they were
/// read from: an acknowledged entry keeps its content id; an in-flight
/// entry becomes the next upload, re-sent at `part_index`.
pub open spec fn spec_slot_matches(
    slot: RecoverySlot,
    entry: InFlightPartCheckpoint,
    uploads: Seq<RecoveryUpload>,
    k: int,
    part_index: int,
) -> bool {
    match entry {
        InFlightPartCheckpoint::FinishedPart { part: _, content_id } => slot matches
            RecoverySlot::Known(c) && c@ == content_id@,
        InFlightPartCheckpoint::InProgressPart { part: _, data } => slot matches
            RecoverySlot::FromUpload(j) && j == k && 0 <= k < uploads.len()
            && uploads[k].part_index == part_index && uploads[k].byte_data@ == data@,
    }
}

impl RecoveryPlan {
    /// Every upload reference points into the upload list.
    pub open spec fn refs_ok(&self) -> bool {
        forall|i: int|
            0 <= i < self.slots@.len() ==> ((#[trigger] self.slots@[i]) matches
                RecoverySlot::FromUpload(k) ==> k < self.uploads@.len())
    }
}

/// What a recovery plan for a checkpointed snapshot must hold.
///
/// For a snapshot taken before the upload id arrived, every queued part
/// is uploaded at its queue position and the trailing bytes follow as
/// one more part.  For an in-flight or closed snapshot, acknowledged
/// parts keep their content ids and in-flight parts are re-uploaded:
/// at their recorded index for an open file, at their list position for
/// a closed one; trailing bytes (open files only) become the next part
/// after the list.  A completed snapshot passes its content ids through.
pub open spec fn spec_plan_for(filename: Seq<char>, data: FileCheckpointData, plan: RecoveryPlan) -> bool {
    &&& !(data is Empty)
    &&& plan.filename@ == filename
    &&& plan.refs_ok()
    &&& (plan.needs_start <==> plan.multipart_id is None)
    &&& (data matches FileCheckpointData::MultiPartNotCreated {
            parts_to_add,
            trailing_bytes,
        } ==> {
            let extra: int = if trailing_bytes is Some {
                1
            } else {
                0
            };
            &&& plan.needs_start
            &&& plan.slots@.len() == parts_to_add@.len() + extra
            &&& plan.uploads@.len() == parts_to_add@.len() + extra
            &&& forall|i: int|
                0 <= i < plan.slots@.len() ==> ((#[trigger] plan.slots@[i]) matches
                    RecoverySlot::FromUpload(k) && k == i)
            &&& forall|i: int|
                0 <= i < parts_to_add@.len() ==> (#[trigger] plan.uploads@[i]).part_index == i
                    && plan.uploads@[i].byte_data@ == parts_to_add@[i]@
            &&& (trailing_bytes matches Some(b) ==> plan.uploads@.last().part_index
                == parts_to_add@.len() && plan.uploads@.last().byte_data@ == b@)
        })
    &&& (data matches FileCheckpointData::MultiPartInFlight {
            multi_part_upload_id,
            in_flight_parts,
            trailing_bytes,
        } ==> {
            let extra: int = if trailing_bytes is Some {
                1
            } else {
                0
            };
            &&& !plan.needs_start
            &&& plan.multipart_id matches Some(id) && id@ == multi_part_upload_id@
            &&& plan.slots@.len() == in_flight_parts@.len() + extra
            &&& plan.uploads@.len() == spec_count_inprogress(in_flight_parts@) + extra
            &&& forall|i: int|
                0 <= i < in_flight_parts@.len() ==> spec_slot_matches(
                    #[trigger] plan.slots@[i],
                    in_flight_parts@[i],
                    plan.uploads@,
                    spec_count_inprogress(in_flight_parts@.take(i)),
                    in_flight_parts@[i]->InProgressPart_part as int,
                )
            &&& (trailing_bytes matches Some(b) ==> (plan.slots@.last() matches
                RecoverySlot::FromUpload(k) && k == plan.uploads@.len() - 1
                && plan.uploads@.last().part_index == in_flight_parts@.len()
                && plan.uploads@.last().byte_data@ == b@))
        })
    &&& (data matches FileCheckpointData::MultiPartWriterClosed {
            multi_part_upload_id,
            in_flight_parts,
        } ==> {
            &&& !plan.needs_start
            &&& plan.multipart_id matches Some(id) && id@ == multi_part_upload_id@
            &&& plan.slots@.len() == in_flight_parts@.len()
            &&& plan.uploads@.len() == spec_count_inprogress(in_flight_parts@)
            &&& forall|i: int|
                0 <= i < in_flight_parts@.len() ==> spec_slot_matches(
                    #[trigger] plan.slots@[i],
                    in_flight_parts@[i],
                    plan.uploads@,
                    spec_count_inprogress(in_flight_parts@.take(i)),
                    i,
                )
        })
    &&& (data matches FileCheckpointData::MultiPartWriterUploadCompleted {
            multi_part_upload_id,
            completed_parts,
        } ==> {
            &&& !plan.needs_start
            &&& plan.multipart_id matches Some(id) && id@ == multi_part_upload_id@
            &&& plan.uploads@.len() == 0
            &&& plan.slots@.len() == completed_parts@.len()
            &&& forall|i: int|
                0 <= i < plan.slots@.len() ==> ((#[trigger] plan.slots@[i]) matches
                    RecoverySlot::Known(c) && c@ == completed_parts@[i]@)
        })
}

/// Builds the plan that brings one checkpointed file to completion;
/// `None` exactly for an empty file, which needs nothing, and
/// otherwise a plan satisfying `spec_plan_for` of the snapshot.
pub fn plan_recovery(filename: String, data: FileCheckpointData) -> (r: Option<RecoveryPlan>)
    ensures
        r is None <==> data is Empty,
        r matches Some(plan) ==> spec_plan_for(filename@, data, plan),
{
    match data {
        FileCheckpointData::Empty => None,
        FileCheckpointData::MultiPartNotCreated { parts_to_add, trailing_bytes } => {
            let mut slots: Vec<RecoverySlot> = Vec::new();
            let mut uploads: Vec<RecoveryUpload> = Vec::new();
            let mut idx: usize = 0;
            let n = parts_to_add.len();
            #[verifier::loop_isolation(false)]
            while idx < n
                invariant
                    0 <= idx <= n,
                    n == parts_to_add@.len(),
                    slots@.len() == idx,
                    uploads@.len() == idx,
                    forall|i: int|
                        0 <= i < idx ==> ((#[trigger] slots@[i]) matches RecoverySlot::FromUpload(k)
                            && k == i),
                    forall|i: int|
                        0 <= i < idx ==> (#[trigger] uploads@[i]).part_index == i
                            && uploads@[i].byte_data@ == parts_to_add@[i]@,
                decreases n - idx,
            {
                let d = parts_to_add[idx].clone();
                proof {
                    assert(d@ =~= parts_to_add@[idx as int]@);
                }
                slots.push(RecoverySlot::FromUpload(idx));
                uploads.push(RecoveryUpload { part_index: idx, byte_data: d });
                idx = idx + 1;
            }
            match trailing_bytes {
                Some(trailing) => {
                    slots.push(RecoverySlot::FromUpload(n));
                    uploads.push(RecoveryUpload { part_index: n, byte_data: trailing });
                },
                None => {},
            }
            Some(RecoveryPlan {
                filename,
                needs_start: true,
                multipart_id: None,
                slots,
                uploads,
            })
        },
        FileCheckpointData::MultiPartInFlight {
            multi_part_upload_id,
            in_flight_parts,
            trailing_bytes,
        } => {
            let mut slots: Vec<RecoverySlot> = Vec::new();
            let mut uploads: Vec<RecoveryUpload> = Vec::new();
            let mut idx: usize = 0;
            let n = in_flight_parts.len();
            #[verifier::loop_isolation(false)]
            while idx < n
                invariant
                    0 <= idx <= n,
                    n == in_flight_parts@.len(),
                    slots@.len() == idx,
                    uploads@.len() == spec_count_inprogress(in_flight_parts@.take(idx as int)),
                    forall|i: int|
                        0 <= i < idx ==> spec_slot_matches(
                            #[trigger] slots@[i],
                            in_flight_parts@[i],
                            uploads@,
                            spec_count_inprogress(in_flight_parts@.take(i)),
                            in_flight_parts@[i]->InProgressPart_part as int,
                        ),
                decreases n - idx,
            {
                proof {
                    assert(in_flight_parts@.take(idx as int).push(in_flight_parts@[idx as int])
                        =~= in_flight_parts@.take(idx as int + 1));
                    lemma_count_inprogress_push(
                        in_flight_parts@.take(idx as int),
                        in_flight_parts@[idx as int],
                    );
                }
                match &in_flight_parts[idx] {
                    InFlightPartCheckpoint::FinishedPart { part: _, content_id } => {
                        slots.push(RecoverySlot::Known(content_id.clone()));
                    },
                    InFlightPartCheckpoint::InProgressPart { part, data } => {
                        let d = data.clone();
                        proof {
                            assert(d@ =~= in_flight_parts@[idx as int]->InProgressPart_data@);
                        }
                        slots.push(RecoverySlot::FromUpload(uploads.len()));
                        uploads.push(RecoveryUpload { part_index: *part, byte_data: d });
                    },
                }
                idx = idx + 1;
            }
            proof {
                assert(in_flight_parts@.take(n as int) =~= in_flight_parts@);
            }
            match trailing_bytes {
                Some(trailing) => {
                    slots.push(RecoverySlot::FromUpload(uploads.len()));
                    uploads.push(RecoveryUpload { part_index: n, byte_data: trailing });
                },
                None => {},
            }
            Some(RecoveryPlan {
                filename,
                needs_start: false,
                multipart_id: Some(multi_part_upload_id),
                slots,
                uploads,
            })
        },
        FileCheckpointData::MultiPartWriterClosed { multi_part_upload_id, in_flight_parts } => {
            let mut slots: Vec<RecoverySlot> = Vec::new();
            let mut uploads: Vec<RecoveryUpload> = Vec::new();
            let mut idx: usize = 0;
            let n = in_flight_parts.len();
            #[verifier::loop_isolation(false)]
            while idx < n
                invariant
                    0 <= idx <= n,
                    n == in_flight_parts@.len(),
                    slots@.len() == idx,
                    uploads@.len() == spec_count_inprogress(in_flight_parts@.take(idx as int)),
                    forall|i: int|
                        0 <= i < idx ==> spec_slot_matches(
                            #[trigger] slots@[i],
                            in_flight_parts@[i],
                            uploads@,
                            spec_count_inprogress(in_flight_parts@.take(i)),
                            i,
                        ),
                decreases n - idx,
            {
                proof {
                    assert(in_flight_parts@.take(idx as int).push(in_flight_parts@[idx as int])
                        =~= in_flight_parts@.take(idx as int + 1));
                    lemma_count_inprogress_push(
                        in_flight_parts@.take(idx as int),
                        in_flight_parts@[idx as int],
                    );
                }
                match &in_flight_parts[idx] {
                    InFlightPartCheckpoint::FinishedPart { part: _, content_id } => {
                        slots.push(RecoverySlot::Known(content_id.clone()));
                    },
                    InFlightPartCheckpoint::InProgressPart { part: _, data } => {
                        let d = data.clone();
                        proof {
                            assert(d@ =~= in_flight_parts@[idx as int]->InProgressPart_data@);
                        }
                        slots.push(RecoverySlot::FromUpload(uploads.len()));
                        uploads.push(RecoveryUpload { part_index: idx, byte_data: d });
                    },
                }
                idx = idx + 1;
            }
            proof {
                assert(in_flight_parts@.take(n as int) =~= in_flight_parts@);
            }
            Some(RecoveryPlan {
                filename,
                needs_start: false,
                multipart_id: Some(multi_part_upload_id),
                slots,
                uploads,
            })
        },
        FileCheckpointData::MultiPartWriterUploadCompleted {
            multi_part_upload_id,
            completed_parts,
        } => {
            let mut slots: Vec<RecoverySlot> = Vec::new();
            let mut idx: usize = 0;
            let n = completed_parts.len();
            #[verifier::loop_isolation(false)]
            while idx < n
                invariant
                    0 <= idx <= n,
                    n == completed_parts@.len(),
                    slots@.len() == idx,
                    forall|i: int|
                        0 <= i < idx ==> ((#[trigger] slots@[i]) matches RecoverySlot::Known(c)
                            && c@ == completed_parts@[i]@),
                decreases n - idx,
            {
                slots.push(RecoverySlot::Known(completed_parts[idx].clone()));
                idx = idx + 1;
            }
            Some(RecoveryPlan {
                filename,
                needs_start: false,
                multipart_id: Some(multi_part_upload_id),
                slots,
                uploads: Vec::new(),
            })
        },
    }
}

/// Assembles the pre-commit token once the driver has performed the
/// plan: `started_id` is the upload id obtained from `start_multipart`
/// when the plan asked for one, and `uploaded_ids` are the content ids
/// the plan's uploads returned, in order.
pub fn finish_recovery(
    plan: &RecoveryPlan,
    started_id: Option<String>,
    uploaded_ids: &Vec<String>,
) -> (r: FileToFinish)
    requires
        plan.refs_ok(),
        uploaded_ids@.len() == plan.uploads@.len(),
        plan.needs_start ==> started_id is Some,
        !plan.needs_start ==> plan.multipart_id is Some,
    ensures
        r.filename@ == plan.filename@,
        plan.needs_start ==> r.multi_part_upload_id@ == started_id->0@,
        !plan.needs_start ==> r.multi_part_upload_id@ == plan.multipart_id->0@,
        r.completed_parts@.len() == plan.slots@.len(),
        forall|i: int|
            0 <= i < plan.slots@.len() ==> match plan.slots@[i] {
                RecoverySlot::Known(c) => (#[trigger] r.completed_parts@[i])@ == c@,
                RecoverySlot::FromUpload(k) => r.completed_parts@[i]@ == uploaded_ids@[k as int]@,
            },
{
    let multi_part_upload_id = if plan.needs_start {
        started_id.unwrap()
    } else {
        plan.multipart_id.as_ref().unwrap().clone()
    };
    let mut completed_parts: Vec<String> = Vec::new();
    let mut idx: usize = 0;
    let n = plan.slots.len();
    #[verifier::loop_isolation(false)]
    while idx < n
        invariant
            0 <= idx <= n,
            n == plan.slots@.len(),
            completed_parts@.len() == idx,
            forall|i: int|
                0 <= i < idx ==> match plan.slots@[i] {
                    RecoverySlot::Known(c) => (#[trigger] completed_parts@[i])@ == c@,
                    RecoverySlot::FromUpload(k) => completed_parts@[i]@ == uploaded_ids@[k as int]@,
                },
        decreases n - idx,
    {
        match &plan.slots[idx] {
            RecoverySlot::Known(c) => {
                completed_parts.push(c.clone());
            },
            RecoverySlot::FromUpload(k) => {
                completed_parts.push(uploaded_ids[*k].clone());
            },
        }
        idx = idx + 1;
    }
    FileToFinish { filename: plan.filename.clone(), multi_part_upload_id, completed_parts }
}

/// Applying one recovery twice commits the same file set as applying it
/// once: the files a recovery finalizes are a function of the
/// checkpoint alone, and committing a file that is already committed
/// changes nothing.
pub proof fn lemma_recovery_idempotent(committed: Set<Seq<char>>, recovered: Set<Seq<char>>)
    ensures
        committed.union(recovered).union(recovered) == committed.union(recovered),
{
    assert(committed.union(recovered).union(recovered) =~= committed.union(recovered));
}

/// Stability under restart, for a file caught open and in flight: the
/// plan built from its checkpoint reproduces the file byte for byte.
/// Every acknowledged part keeps its content id at its index; every
/// unacknowledged part is re-uploaded at its original index with
/// exactly the bytes it held; the encoder's trailing bytes follow as
/// the next part.  So the re-driven upload is byte-identical to what
/// the original writer would have produced.
pub proof fn lemma_checkpoint_recovery_round_trip(
    m: MultipartManager,
    trailing: Option<Vec<u8>>,
    c: FileCheckpointData,
    plan: RecoveryPlan,
)
    requires
        m.wf(),
        !m.closed,
        m.multipart_id is Some,
        // the checkpoint projection of `m`, as `get_in_progress_checkpoint` ensures it
        c matches FileCheckpointData::MultiPartInFlight {
            multi_part_upload_id,
            in_flight_parts,
            trailing_bytes,
        } && trailing_bytes == trailing && multi_part_upload_id@ == m.multipart_id->0@
            && in_flight_parts@.len() == m.pushed_parts@.len() && (forall|i: int|
            0 <= i < in_flight_parts@.len() ==> match m.pushed_parts@[i] {
                UploadPartOrBufferedData::UploadPart(u) => ((#[trigger] in_flight_parts@[i]) matches
                    InFlightPartCheckpoint::FinishedPart { part, content_id } && part == i
                    && content_id@ == u.content_id@),
                UploadPartOrBufferedData::BufferedData { data } => ((#[trigger] in_flight_parts@[i]) matches
                    InFlightPartCheckpoint::InProgressPart { part, data: d } && part == i && d@
                    == data@),
            }),
        // the plan built from that projection, as `plan_recovery` ensures it
        plan.refs_ok(),
        !plan.needs_start,
        plan.multipart_id matches Some(id) && id@ == c->MultiPartInFlight_multi_part_upload_id@,
        plan.slots@.len() == c->MultiPartInFlight_in_flight_parts@.len() + (if trailing is Some {
            1int
        } else {
            0int
        }),
        forall|i: int|
            0 <= i < c->MultiPartInFlight_in_flight_parts@.len() ==> spec_slot_matches(
                #[trigger] plan.slots@[i],
                c->MultiPartInFlight_in_flight_parts@[i],
                plan.uploads@,
                spec_count_inprogress(c->MultiPartInFlight_in_flight_parts@.take(i)),
                c->MultiPartInFlight_in_flight_parts@[i]->InProgressPart_part as int,
            ),
        trailing matches Some(b) ==> (plan.slots@.last() matches RecoverySlot::FromUpload(k) && k
            == plan.uploads@.len() - 1 && plan.uploads@.last().part_index
            == c->MultiPartInFlight_in_flight_parts@.len() && plan.uploads@.last().byte_data@
            == b@),
    ensures
        plan.multipart_id->0@ == m.multipart_id->0@,
        plan.slots@.len() == m.pushed_parts@.len() + (if trailing is Some {
            1int
        } else {
            0int
        }),
        forall|i: int|
            0 <= i < m.pushed_parts@.len() ==> match m.pushed_parts@[i] {
                UploadPartOrBufferedData::UploadPart(u) => ((#[trigger] plan.slots@[i]) matches
                    RecoverySlot::Known(cid) && cid@ == u.content_id@),
                UploadPartOrBufferedData::BufferedData { data: _ } => (exists|k: int|
                    0 <= k < plan.uploads@.len() && (plan.slots@[i] matches
                        RecoverySlot::FromUpload(kk) && kk == k
                        && (#[trigger] plan.uploads@[k]).part_index == i
                        && plan.uploads@[k].byte_data@ == m.part_bytes@[i])),
            },
        trailing matches Some(b) ==> plan.uploads@.last().part_index == m.pushed_parts@.len()
            && plan.uploads@.last().byte_data@ == b@,
{
    let ifp = c->MultiPartInFlight_in_flight_parts@;
    assert forall|i: int| 0 <= i < m.pushed_parts@.len() implies match m.pushed_parts@[i] {
        UploadPartOrBufferedData::UploadPart(u) => ((#[trigger] plan.slots@[i]) matches
            RecoverySlot::Known(cid) && cid@ == u.content_id@),
        UploadPartOrBufferedData::BufferedData { data: _ } => (exists|k: int|
            0 <= k < plan.uploads@.len() && (plan.slots@[i] matches
                RecoverySlot::FromUpload(kk) && kk == k
                && (#[trigger] plan.uploads@[k]).part_index == i
                && plan.uploads@[k].byte_data@ == m.part_bytes@[i])),
    } by {
        assert(spec_slot_matches(
            plan.slots@[i],
            ifp[i],
            plan.uploads@,
            spec_count_inprogress(ifp.take(i)),
            ifp[i]->InProgressPart_part as int,
        ));
        match m.pushed_parts@[i] {
            UploadPartOrBufferedData::UploadPart(u) => {},
            UploadPartOrBufferedData::BufferedData { data } => {
                let k = spec_count_inprogress(ifp.take(i));
                assert(data@ == m.part_bytes@[i]);
            },
        }
    }
}

} // verus!
