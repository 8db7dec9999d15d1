//! Per-file multipart-upload state machine.
//!
//! A [`MultipartManager`] tracks one in-flight multipart upload: the
//! parts that are queued before the store has returned an upload id, the
//! parts pushed to the store and their completion state, and whether the
//! file has been closed.  It performs no I/O itself: every store call it
//! needs is returned as a [`MultipartAction`] value, and the store's
//! answers come back as [`MultipartCallback`] values.

use vstd::prelude::*;

verus! {

/// The store's acknowledgement of one uploaded part.
#[derive(Debug, Clone)]
pub struct UploadedPart {
    pub content_id: String,
}

/// A part queued before the multipart upload id has arrived.
#[derive(Debug)]
pub struct PartToUpload {
    pub part_index: usize,
    pub byte_data: Vec<u8>,
}

/// One slot of the pushed-parts list: either acknowledged by the store
/// or still buffered awaiting its acknowledgement.
#[derive(Debug)]
pub enum UploadPartOrBufferedData {
    UploadPart(UploadedPart),
    BufferedData { data: Vec<u8> },
}

/// A store call the driver must perform on behalf of a manager.
#[derive(Debug)]
pub enum MultipartAction {
    /// Initiate the multipart upload for the named file.
    StartMultipart { name: String },
    /// Upload one numbered part of the named file.
    UploadPart { name: String, multipart_id: String, part_index: usize, byte_data: Vec<u8> },
    /// No store call: the named file closed with every part already
    /// acknowledged, so its `UploadsFinished` callback is immediate.
    FinishedImmediately { name: String },
}

/// The store's answer to one action.
#[derive(Debug)]
pub enum MultipartCallback {
    InitializedMultipart { multipart_id: String },
    CompletedPart { part_idx: usize, upload_part: UploadedPart },
    UploadsFinished,
}

/// A callback tagged with the file it belongs to.
#[derive(Debug)]
pub struct MultipartCallbackWithName {
    pub callback: MultipartCallback,
    pub name: String,
}

/// A pre-commit token: finalizing the file with these content ids is the
/// only remaining step.
#[derive(Debug, Clone)]
pub struct FileToFinish {
    pub filename: String,
    pub multi_part_upload_id: String,
    pub completed_parts: Vec<String>,
}

/// The checkpoint projection of one file's upload state.
#[derive(Debug, Clone)]
pub enum FileCheckpointData {
    Empty,
    MultiPartNotCreated {
        parts_to_add: Vec<Vec<u8>>,
        trailing_bytes: Option<Vec<u8>>,
    },
    MultiPartInFlight {
        multi_part_upload_id: String,
        in_flight_parts: Vec<InFlightPartCheckpoint>,
        trailing_bytes: Option<Vec<u8>>,
    },
    MultiPartWriterClosed {
        multi_part_upload_id: String,
        in_flight_parts: Vec<InFlightPartCheckpoint>,
    },
    MultiPartWriterUploadCompleted {
        multi_part_upload_id: String,
        completed_parts: Vec<String>,
    },
}

/// One checkpointed slot of a pushed-parts list.
#[derive(Debug, Clone)]
pub enum InFlightPartCheckpoint {
    FinishedPart { part: usize, content_id: String },
    InProgressPart { part: usize, data: Vec<u8> },
}

/// The number of acknowledged slots in a pushed-parts list.
pub open spec fn spec_count_uploaded(s: Seq<UploadPartOrBufferedData>) -> int
    decreases s.len(),
{
    if s.len() == 0 {
        0
    } else {
        spec_count_uploaded(s.drop_last()) + if s.last() is UploadPart {
            1int
        } else {
            0int
        }
    }
}

/// The count never exceeds the length.
pub proof fn lemma_count_uploaded_le_len(s: Seq<UploadPartOrBufferedData>)
    ensures
        0 <= spec_count_uploaded(s) <= s.len(),
    decreases s.len(),
{
    if s.len() > 0 {
        lemma_count_uploaded_le_len(s.drop_last());
    }
}

/// Appending a slot adds one to the count exactly when it is already
/// acknowledged.
pub proof fn lemma_count_uploaded_push(s: Seq<UploadPartOrBufferedData>, x: UploadPartOrBufferedData)
    ensures
        spec_count_uploaded(s.push(x)) == spec_count_uploaded(s) + if x is UploadPart {
            1int
        } else {
            0int
        },
{
    assert(s.push(x).drop_last() =~= s);
    assert(s.push(x).last() == x);
}

/// Acknowledging one buffered slot adds one to the count.
pub proof fn lemma_count_uploaded_update(
    s: Seq<UploadPartOrBufferedData>,
    i: int,
    x: UploadPartOrBufferedData,
)
    requires
        0 <= i < s.len(),
        s[i] is BufferedData,
        x is UploadPart,
    ensures
        spec_count_uploaded(s.update(i, x)) == spec_count_uploaded(s) + 1,
    decreases s.len(),
{
    if i == s.len() - 1 {
        assert(s.update(i, x).drop_last() =~= s.drop_last());
        assert(s.update(i, x).last() == x);
        assert(s.last() == s[i]);
    } else {
        assert(s.update(i, x).drop_last() =~= s.drop_last().update(i, x));
        assert(s.update(i, x).last() == s.last());
        lemma_count_uploaded_update(s.drop_last(), i, x);
    }
}

/// When the count equals the length, every slot is acknowledged.
pub proof fn lemma_count_uploaded_full(s: Seq<UploadPartOrBufferedData>)
    requires
        spec_count_uploaded(s) == s.len(),
    ensures
        forall|i: int| 0 <= i < s.len() ==> s[i] is UploadPart,
    decreases s.len(),
{
    if s.len() > 0 {
        lemma_count_uploaded_le_len(s.drop_last());
        assert(s.last() is UploadPart);
        lemma_count_uploaded_full(s.drop_last());
        assert forall|i: int| 0 <= i < s.len() implies s[i] is UploadPart by {
            if i < s.len() - 1 {
                assert(s.drop_last()[i] == s[i]);
            }
        }
    }
}

/// The checkpointed payloads correspond one to one to the queued
/// parts.
pub open spec fn spec_parts_data_match(parts: Seq<PartToUpload>, out: Seq<Vec<u8>>) -> bool {
    &&& out.len() == parts.len()
    &&& forall|i: int| 0 <= i < out.len() ==> (#[trigger] out[i])@ == parts[i].byte_data@
}

/// The checkpointed slots correspond one to one to the pushed parts:
/// an acknowledged part keeps its content id, a buffered one its
/// bytes, each at its own index.
pub open spec fn spec_in_flight_match(
    pushed: Seq<UploadPartOrBufferedData>,
    out: Seq<InFlightPartCheckpoint>,
) -> bool {
    &&& out.len() == pushed.len()
    &&& forall|i: int|
        0 <= i < out.len() ==> match pushed[i] {
            UploadPartOrBufferedData::UploadPart(u) => ((#[trigger] out[i]) matches
                InFlightPartCheckpoint::FinishedPart { part, content_id } && part == i
                && content_id@ == u.content_id@),
            UploadPartOrBufferedData::BufferedData { data } => ((#[trigger] out[i]) matches
                InFlightPartCheckpoint::InProgressPart { part, data: d } && part == i && d@
                == data@),
        }
}

/// The checkpointed content ids correspond one to one to the pushed
/// (all acknowledged) parts.
pub open spec fn spec_completed_match(
    pushed: Seq<UploadPartOrBufferedData>,
    out: Seq<String>,
) -> bool {
    &&& out.len() == pushed.len()
    &&& forall|i: int|
        0 <= i < out.len() ==> (pushed[i] matches UploadPartOrBufferedData::UploadPart(u)
            && (#[trigger] out[i])@ == u.content_id@)
}

/// Per-file state machine for one multipart upload.
pub struct MultipartManager {
    /// The file's full path; it names the file in every action.
    pub location: String,
    /// The store's upload id, absent until `InitializedMultipart`.
    pub multipart_id: Option<String>,
    /// Slots of parts pushed to the store, in part-index order.
    pub pushed_parts: Vec<UploadPartOrBufferedData>,
    /// How many slots of `pushed_parts` are acknowledged.
    pub uploaded_parts: usize,
    /// Parts queued while the upload id is still outstanding.
    pub parts_to_add: Vec<PartToUpload>,
    /// Once true, no new parts may be enqueued.
    pub closed: bool,
    /// The bytes of every part, in part-index order: the file's content.
    pub part_bytes: Ghost<Seq<Seq<u8>>>,
}

impl MultipartManager {
    /// Well-formedness of the state machine.
    pub open spec fn wf(&self) -> bool {
        &&& self.uploaded_parts == spec_count_uploaded(self.pushed_parts@)
        &&& forall|i: int|
            0 <= i < self.parts_to_add@.len() ==> (#[trigger] self.parts_to_add@[i]).part_index == i
        &&& (self.multipart_id is None ==> self.pushed_parts@.len() == 0)
        &&& (self.multipart_id is Some ==> self.parts_to_add@.len() == 0)
        &&& (self.multipart_id is None ==> self.part_bytes@.len() == self.parts_to_add@.len()
            && (forall|i: int|
                0 <= i < self.parts_to_add@.len() ==> (#[trigger] self.parts_to_add@[i]).byte_data@
                    == self.part_bytes@[i]))
        &&& (self.multipart_id is Some ==> self.part_bytes@.len() == self.pushed_parts@.len()
            && (forall|i: int|
                0 <= i < self.pushed_parts@.len()
                    ==> ((#[trigger] self.pushed_parts@[i]) matches
                    UploadPartOrBufferedData::BufferedData { data } ==> data@ == self.part_bytes@[i])))
    }

    /// All uploads are finished: the file is closed and every pushed
    /// part is acknowledged.
    pub open spec fn spec_all_uploads_finished(&self) -> bool {
        self.closed && self.uploaded_parts == self.pushed_parts@.len()
    }

    /// Whether `f` is the correct pre-commit token for this manager:
    /// same file, same upload id, and the acknowledged content ids in
    /// part-index order, one for each pushed part.
    pub open spec fn spec_finish_of(&self, f: FileToFinish) -> bool {
        &&& f.filename@ == self.location@
        &&& self.multipart_id matches Some(id) && f.multi_part_upload_id@ == id@
        &&& f.completed_parts@.len() == self.pushed_parts@.len()
        &&& forall|i: int|
            0 <= i < self.pushed_parts@.len()
                ==> ((#[trigger] self.pushed_parts@[i]) matches UploadPartOrBufferedData::UploadPart(u)
                && f.completed_parts@[i]@ == u.content_id@)
    }

    /// The state change and store action that enqueueing `data` as the
    /// next part owes: the part's bytes extend the file; with an upload
    /// id at hand the part is pushed as a buffered slot and its upload
    /// is requested; before the id has arrived the part queues up, and
    /// the first queued part requests initiation.
    pub open spec fn spec_write_part_transition(
        m0: MultipartManager,
        m1: MultipartManager,
        data: Seq<u8>,
        r: Option<MultipartAction>,
    ) -> bool {
        &&& m1.location@ == m0.location@
        &&& m1.closed == m0.closed
        &&& m1.multipart_id == m0.multipart_id
        &&& m1.uploaded_parts == m0.uploaded_parts
        &&& m1.part_bytes@ == m0.part_bytes@.push(data)
        &&& match m0.multipart_id {
            Some(id) => {
                &&& m1.parts_to_add@ == m0.parts_to_add@
                &&& m1.pushed_parts@.len() == m0.pushed_parts@.len() + 1
                &&& forall|i: int|
                    0 <= i < m0.pushed_parts@.len() ==> m1.pushed_parts@[i] == m0.pushed_parts@[i]
                &&& m1.pushed_parts@.last() matches UploadPartOrBufferedData::BufferedData { data: d }
                    && d@ == data
                &&& r matches Some(a) && a matches MultipartAction::UploadPart {
                    name,
                    multipart_id,
                    part_index,
                    byte_data,
                } && name@ == m0.location@ && multipart_id@ == id@ && part_index
                    == m0.pushed_parts@.len() && byte_data@ == data
            },
            None => {
                &&& m1.pushed_parts@ == m0.pushed_parts@
                &&& m1.parts_to_add@.len() == m0.parts_to_add@.len() + 1
                &&& forall|i: int|
                    0 <= i < m0.parts_to_add@.len() ==> m1.parts_to_add@[i] == m0.parts_to_add@[i]
                &&& m1.parts_to_add@.last().byte_data@ == data
                &&& if m0.parts_to_add@.len() == 0 {
                    r matches Some(a) && a matches MultipartAction::StartMultipart { name }
                        && name@ == m0.location@
                } else {
                    r is None
                }
            },
        }
    }

    /// The state change and store actions that recording the upload id
    /// owes: the id is set, every queued part becomes a buffered pushed
    /// slot, and the actions are exactly their uploads, in part-index
    /// order.
    pub open spec fn spec_init_transition(
        m0: MultipartManager,
        m1: MultipartManager,
        multipart_id: Seq<char>,
        acts: Seq<MultipartAction>,
    ) -> bool {
        &&& m1.location@ == m0.location@
        &&& m1.closed == m0.closed
        &&& m1.multipart_id matches Some(id) && id@ == multipart_id
        &&& m1.parts_to_add@.len() == 0
        &&& m1.uploaded_parts == 0
        &&& m1.part_bytes@ == m0.part_bytes@
        &&& m1.pushed_parts@.len() == m0.parts_to_add@.len()
        &&& forall|i: int|
            0 <= i < m1.pushed_parts@.len() ==> ((#[trigger] m1.pushed_parts@[i]) matches
                UploadPartOrBufferedData::BufferedData { data } && data@
                == m0.parts_to_add@[i].byte_data@)
        &&& acts.len() == m0.parts_to_add@.len()
        &&& forall|i: int|
            0 <= i < acts.len() ==> ((#[trigger] acts[i]) matches MultipartAction::UploadPart {
                name,
                multipart_id: mid,
                part_index,
                byte_data,
            } && name@ == m0.location@ && mid@ == multipart_id && part_index == i && byte_data@
                == m0.parts_to_add@[i].byte_data@)
    }

    /// What the pre-commit token of a file completed by acknowledging
    /// part `part_idx` must hold: the file's name, its upload id, and
    /// the content ids of all parts in part-index order, with the fresh
    /// acknowledgement at its index.
    pub open spec fn spec_completed_token(
        m0: MultipartManager,
        part_idx: int,
        upload_part: UploadedPart,
        f: FileToFinish,
    ) -> bool {
        &&& f.filename@ == m0.location@
        &&& m0.multipart_id matches Some(id) && f.multi_part_upload_id@ == id@
        &&& f.completed_parts@.len() == m0.pushed_parts@.len()
        &&& f.completed_parts@[part_idx]@ == upload_part.content_id@
        &&& forall|i: int|
            0 <= i < m0.pushed_parts@.len() && i != part_idx ==> ((#[trigger] m0.pushed_parts@[i]) matches
                UploadPartOrBufferedData::UploadPart(u) && f.completed_parts@[i]@ == u.content_id@)
    }

    /// A fresh manager for the file at `location`.
    pub fn new(location: String) -> (r: Self)
        ensures
            r.wf(),
            r.location@ == location@,
            r.multipart_id is None,
            r.pushed_parts@.len() == 0,
            r.uploaded_parts == 0,
            r.parts_to_add@.len() == 0,
            !r.closed,
            r.part_bytes@ =~= Seq::<Seq<u8>>::empty(),
    {
        MultipartManager {
            location,
            multipart_id: None,
            pushed_parts: Vec::new(),
            uploaded_parts: 0,
            parts_to_add: Vec::new(),
            closed: false,
            part_bytes: Ghost(Seq::empty()),
        }
    }

    /// The file's name.
    pub fn name(&self) -> (r: String)
        ensures
            r@ == self.location@,
    {
        self.location.clone()
    }

    /// Evaluates `spec_all_uploads_finished`.
    pub fn all_uploads_finished(&self) -> (r: bool)
        ensures
            r == self.spec_all_uploads_finished(),
    {
        self.closed && self.uploaded_parts == self.pushed_parts.len()
    }

    /// Enqueues the next part of the file.
    ///
    /// With an upload id at hand the part is pushed as a buffered slot
    /// and its upload is requested; before the id has arrived the part
    /// queues up, and the first queued part requests initiation of the
    /// multipart upload.
    pub fn write_next_part(&mut self, data: Vec<u8>) -> (r: Option<MultipartAction>)
        requires
            old(self).wf(),
        ensures
            final(self).wf(),
            Self::spec_write_part_transition(*old(self), *final(self), data@, r),
    {
        proof {
            let gd: Ghost<Seq<u8>> = Ghost(data@);
            self.part_bytes@ = self.part_bytes@.push(gd@);
        }
        match &self.multipart_id {
            Some(id) => {
                let part_index = self.pushed_parts.len();
                let action = MultipartAction::UploadPart {
                    name: self.location.clone(),
                    multipart_id: id.clone(),
                    part_index,
                    byte_data: data.clone(),
                };
                self.pushed_parts.push(UploadPartOrBufferedData::BufferedData { data });
                proof {
                    lemma_count_uploaded_push(
                        old(self).pushed_parts@,
                        self.pushed_parts@.last(),
                    );
                }
                Some(action)
            },
            None => {
                let is_first_part = self.parts_to_add.is_empty();
                let part_index = self.parts_to_add.len();
                self.parts_to_add.push(PartToUpload { part_index, byte_data: data });
                if is_first_part {
                    // start a new multipart upload
                    Some(MultipartAction::StartMultipart { name: self.location.clone() })
                } else {
                    None
                }
            },
        }
    }

    /// Records the upload id the store returned and requests the upload
    /// of every queued part, in part-index order.
    pub fn handle_initialization(&mut self, multipart_id: String) -> (acts: Vec<MultipartAction>)
        requires
            old(self).wf(),
            old(self).multipart_id is None,
        ensures
            final(self).wf(),
            Self::spec_init_transition(*old(self), *final(self), multipart_id@, acts@),
    {
        let mut parts: Vec<PartToUpload> = Vec::new();
        core::mem::swap(&mut parts, &mut self.parts_to_add);
        self.multipart_id = Some(multipart_id);
        let mut acts: Vec<MultipartAction> = Vec::new();
        let mut idx: usize = 0;
        let id = self.multipart_id.as_ref().unwrap();
        #[verifier::loop_isolation(false)]
        while idx < parts.len()
            invariant
                0 <= idx <= parts@.len(),
                parts@ == old(self).parts_to_add@,
                self.location@ == old(self).location@,
                self.closed == old(self).closed,
                self.part_bytes@ == old(self).part_bytes@,
                self.multipart_id is Some && self.multipart_id->0@ == multipart_id@,
                self.parts_to_add@.len() == 0,
                self.pushed_parts@.len() == idx,
                acts@.len() == idx,
                self.uploaded_parts == spec_count_uploaded(self.pushed_parts@),
                self.uploaded_parts == 0,
                forall|i: int|
                    0 <= i < idx ==> ((#[trigger] self.pushed_parts@[i]) matches
                        UploadPartOrBufferedData::BufferedData { data }
                        && data@ == parts@[i].byte_data@),
                forall|i: int|
                    0 <= i < idx ==> ((#[trigger] acts@[i]) matches MultipartAction::UploadPart {
                        name,
                        multipart_id: mid,
                        part_index,
                        byte_data,
                    } && name@ == self.location@ && mid@ == multipart_id@ && part_index == i
                        && byte_data@ == parts@[i].byte_data@),
            decreases parts@.len() - idx,
        {
            let data_for_slot = parts[idx].byte_data.clone();
            proof {
                assert(data_for_slot@ =~= parts@[idx as int].byte_data@);
                lemma_count_uploaded_push(
                    self.pushed_parts@,
                    UploadPartOrBufferedData::BufferedData { data: data_for_slot },
                );
            }
            let data_for_action = parts[idx].byte_data.clone();
            proof {
                assert(data_for_action@ =~= parts@[idx as int].byte_data@);
            }
            self.pushed_parts.push(UploadPartOrBufferedData::BufferedData { data: data_for_slot });
            acts.push(MultipartAction::UploadPart {
                name: self.location.clone(),
                multipart_id: id.clone(),
                part_index: idx,
                byte_data: data_for_action,
            });
            idx = idx + 1;
        }
        acts
    }

    /// Records the store's acknowledgement of part `part_idx`.  Returns
    /// the pre-commit token exactly when this acknowledgement was the
    /// last one outstanding on a closed file.
    pub fn handle_completed_part(&mut self, part_idx: usize, upload_part: UploadedPart) -> (r: Option<
        FileToFinish,
    >)
        requires
            old(self).wf(),
            part_idx < old(self).pushed_parts@.len(),
            old(self).pushed_parts@[part_idx as int] is BufferedData,
        ensures
            final(self).wf(),
            final(self).location@ == old(self).location@,
            final(self).closed == old(self).closed,
            final(self).multipart_id == old(self).multipart_id,
            final(self).parts_to_add@ == old(self).parts_to_add@,
            final(self).part_bytes@ == old(self).part_bytes@,
            final(self).uploaded_parts == old(self).uploaded_parts + 1,
            final(self).pushed_parts@ == old(self).pushed_parts@.update(
                part_idx as int,
                UploadPartOrBufferedData::UploadPart(upload_part),
            ),
            r is Some <==> final(self).spec_all_uploads_finished(),
            r matches Some(f) ==> final(self).spec_finish_of(f),
            r matches Some(f) ==> Self::spec_completed_token(
                *old(self),
                part_idx as int,
                upload_part,
                f,
            ),
    {
        proof {
            lemma_count_uploaded_le_len(old(self).pushed_parts@);
            lemma_count_uploaded_update(
                old(self).pushed_parts@,
                part_idx as int,
                UploadPartOrBufferedData::UploadPart(upload_part),
            );
        }
        self.pushed_parts.set(part_idx, UploadPartOrBufferedData::UploadPart(upload_part));
        let n = self.pushed_parts.len();
        proof {
            lemma_count_uploaded_le_len(self.pushed_parts@);
            assert(self.uploaded_parts < n);
        }
        self.uploaded_parts = self.uploaded_parts + 1;
        if !self.all_uploads_finished() {
            None
        } else {
            proof {
                lemma_count_uploaded_full(self.pushed_parts@);
            }
            let id = self.multipart_id.as_ref().unwrap().clone();
            let completed_parts = self.collect_content_ids();
            let f = FileToFinish {
                filename: self.location.clone(),
                multi_part_upload_id: id,
                completed_parts,
            };
            proof {
                assert(self.pushed_parts@[part_idx as int] == UploadPartOrBufferedData::UploadPart(
                    upload_part,
                ));
                assert(f.completed_parts@[part_idx as int]@ == upload_part.content_id@);
                assert forall|i: int|
                    0 <= i < old(self).pushed_parts@.len() && i != part_idx
                        implies ((#[trigger] old(self).pushed_parts@[i]) matches
                        UploadPartOrBufferedData::UploadPart(u) && f.completed_parts@[i]@
                        == u.content_id@) by {
                    assert(self.pushed_parts@[i] == old(self).pushed_parts@[i]);
                    assert(self.pushed_parts@[i] is UploadPart);
                    assert(f.completed_parts@[i]@
                        == self.pushed_parts@[i]->UploadPart_0.content_id@);
                }
                assert(Self::spec_completed_token(*old(self), part_idx as int, upload_part, f));
            }
            Some(f)
        }
    }

    /// The acknowledged content ids, in part-index order.
    fn collect_content_ids(&self) -> (r: Vec<String>)
        requires
            forall|i: int| 0 <= i < self.pushed_parts@.len() ==> (#[trigger] self.pushed_parts@[i]) is UploadPart,
        ensures
            r@.len() == self.pushed_parts@.len(),
            forall|i: int|
                0 <= i < r@.len() ==> (self.pushed_parts@[i] matches
                    UploadPartOrBufferedData::UploadPart(u) && (#[trigger] r@[i])@ == u.content_id@),
    {
        let mut r: Vec<String> = Vec::new();
        let mut idx: usize = 0;
        #[verifier::loop_isolation(false)]
        while idx < self.pushed_parts.len()
            invariant
                0 <= idx <= self.pushed_parts@.len(),
                r@.len() == idx,
                forall|i: int|
                    0 <= i < idx ==> (self.pushed_parts@[i] matches
                        UploadPartOrBufferedData::UploadPart(u) && (#[trigger] r@[i])@
                        == u.content_id@),
            decreases self.pushed_parts@.len() - idx,
        {
            match &self.pushed_parts[idx] {
                UploadPartOrBufferedData::UploadPart(upload_part) => {
                    r.push(upload_part.content_id.clone());
                },
                UploadPartOrBufferedData::BufferedData { .. } => {
                    proof {
                        assert(false);
                    }
                },
            }
            idx = idx + 1;
        }
        r
    }

    /// The checkpointed slots, in part-index order.
    fn collect_in_flight(&self) -> (r: Vec<InFlightPartCheckpoint>)
        ensures
            r@.len() == self.pushed_parts@.len(),
            forall|i: int|
                0 <= i < r@.len() ==> match self.pushed_parts@[i] {
                    UploadPartOrBufferedData::UploadPart(u) => ((#[trigger] r@[i]) matches
                        InFlightPartCheckpoint::FinishedPart { part, content_id }
                        && part == i && content_id@ == u.content_id@),
                    UploadPartOrBufferedData::BufferedData { data } => ((#[trigger] r@[i]) matches
                        InFlightPartCheckpoint::InProgressPart { part, data: d }
                        && part == i && d@ == data@),
                },
    {
        let mut r: Vec<InFlightPartCheckpoint> = Vec::new();
        let mut idx: usize = 0;
        #[verifier::loop_isolation(false)]
        while idx < self.pushed_parts.len()
            invariant
                0 <= idx <= self.pushed_parts@.len(),
                r@.len() == idx,
                forall|i: int|
                    0 <= i < idx ==> match self.pushed_parts@[i] {
                        UploadPartOrBufferedData::UploadPart(u) => (#[trigger] r@[i]) matches
                            InFlightPartCheckpoint::FinishedPart { part, content_id }
                            && part == i && content_id@ == u.content_id@,
                        UploadPartOrBufferedData::BufferedData { data } => (#[trigger] r@[i]) matches
                            InFlightPartCheckpoint::InProgressPart { part, data: d }
                            && part == i && d@ == data@,
                    },
            decreases self.pushed_parts@.len() - idx,
        {
            match &self.pushed_parts[idx] {
                UploadPartOrBufferedData::UploadPart(upload_part) => {
                    r.push(InFlightPartCheckpoint::FinishedPart {
                        part: idx,
                        content_id: upload_part.content_id.clone(),
                    });
                },
                UploadPartOrBufferedData::BufferedData { data } => {
                    let cloned_data = data.clone();
                    proof {
                        assert(cloned_data@ =~= self.pushed_parts@[idx as int]->BufferedData_data@);
                    }
                    r.push(InFlightPartCheckpoint::InProgressPart { part: idx, data: cloned_data });
                },
            }
            idx = idx + 1;
        }
        r
    }

    /// The queued part payloads, in part-index order.
    fn collect_parts_to_add(&self) -> (r: Vec<Vec<u8>>)
        ensures
            r@.len() == self.parts_to_add@.len(),
            forall|i: int| 0 <= i < r@.len() ==> (#[trigger] r@[i])@ == self.parts_to_add@[i].byte_data@,
    {
        let mut r: Vec<Vec<u8>> = Vec::new();
        let mut idx: usize = 0;
        #[verifier::loop_isolation(false)]
        while idx < self.parts_to_add.len()
            invariant
                0 <= idx <= self.parts_to_add@.len(),
                r@.len() == idx,
                forall|i: int| 0 <= i < idx ==> (#[trigger] r@[i])@ == self.parts_to_add@[i].byte_data@,
            decreases self.parts_to_add@.len() - idx,
        {
            let d = self.parts_to_add[idx].byte_data.clone();
            proof {
                assert(d@ =~= self.parts_to_add@[idx as int].byte_data@);
            }
            r.push(d);
            idx = idx + 1;
        }
        r
    }

    /// Checkpoint projection of a closed file.
    pub fn get_closed_file_checkpoint_data(&self) -> (r: FileCheckpointData)
        requires
            self.wf(),
            self.closed,
        ensures
            self.multipart_id is None && self.parts_to_add@.len() == 0 ==> r is Empty,
            self.multipart_id is None && self.parts_to_add@.len() > 0 ==> (r matches
                FileCheckpointData::MultiPartNotCreated { parts_to_add, trailing_bytes }
                && trailing_bytes is None && spec_parts_data_match(self.parts_to_add@, parts_to_add@)),
            self.multipart_id is Some && self.spec_all_uploads_finished() ==> (r matches
                FileCheckpointData::MultiPartWriterUploadCompleted { multi_part_upload_id, completed_parts }
                && multi_part_upload_id@ == self.multipart_id->0@
                && spec_completed_match(self.pushed_parts@, completed_parts@)),
            self.multipart_id is Some && !self.spec_all_uploads_finished() ==> (r matches
                FileCheckpointData::MultiPartWriterClosed { multi_part_upload_id, in_flight_parts }
                && multi_part_upload_id@ == self.multipart_id->0@
                && spec_in_flight_match(self.pushed_parts@, in_flight_parts@)),
    {
        match &self.multipart_id {
            None => {
                if self.parts_to_add.len() == 0 {
                    FileCheckpointData::Empty
                } else {
                    FileCheckpointData::MultiPartNotCreated {
                        parts_to_add: self.collect_parts_to_add(),
                        trailing_bytes: None,
                    }
                }
            },
            Some(multipart_id) => {
                if self.all_uploads_finished() {
                    proof {
                        lemma_count_uploaded_full(self.pushed_parts@);
                    }
                    FileCheckpointData::MultiPartWriterUploadCompleted {
                        multi_part_upload_id: multipart_id.clone(),
                        completed_parts: self.collect_content_ids(),
                    }
                } else {
                    FileCheckpointData::MultiPartWriterClosed {
                        multi_part_upload_id: multipart_id.clone(),
                        in_flight_parts: self.collect_in_flight(),
                    }
                }
            },
        }
    }

    /// Checkpoint projection of a file that is still open.  The
    /// encoder's unflushed bytes are passed in as `trailing_bytes` and
    /// embedded in the snapshot.
    pub fn get_in_progress_checkpoint(&self, trailing_bytes: Option<Vec<u8>>) -> (r: FileCheckpointData)
        requires
            self.wf(),
            !self.closed,
        ensures
            self.multipart_id is None ==> (r matches FileCheckpointData::MultiPartNotCreated {
                parts_to_add,
                trailing_bytes: tb,
            } && tb == trailing_bytes && spec_parts_data_match(self.parts_to_add@, parts_to_add@)),
            self.multipart_id is Some ==> (r matches FileCheckpointData::MultiPartInFlight {
                multi_part_upload_id,
                in_flight_parts,
                trailing_bytes: tb,
            } && tb == trailing_bytes && multi_part_upload_id@ == self.multipart_id->0@
                && spec_in_flight_match(self.pushed_parts@, in_flight_parts@)),
    {
        match &self.multipart_id {
            None => FileCheckpointData::MultiPartNotCreated {
                parts_to_add: self.collect_parts_to_add(),
                trailing_bytes,
            },
            Some(multipart_id) => FileCheckpointData::MultiPartInFlight {
                multi_part_upload_id: multipart_id.clone(),
                in_flight_parts: self.collect_in_flight(),
                trailing_bytes,
            },
        }
    }

    /// The pre-commit token of a file whose uploads have all finished.
    pub fn get_finished_file(&self) -> (r: FileToFinish)
        requires
            self.wf(),
            self.spec_all_uploads_finished(),
            self.multipart_id is Some,
        ensures
            self.spec_finish_of(r),
    {
        proof {
            lemma_count_uploaded_full(self.pushed_parts@);
        }
        FileToFinish {
            filename: self.location.clone(),
            multi_part_upload_id: self.multipart_id.as_ref().unwrap().clone(),
            completed_parts: self.collect_content_ids(),
        }
    }
}

} // verus!
