//! The batch multipart writer: one encoder pipeline glued to one
//! multipart manager, with the byte/part statistics the rolling policy
//! reads.
//!
//! Records enter as already-encoded byte strings.  A [`BatchBuilder`]
//! groups them into batches; a [`BatchBufferingWriter`] serializes
//! batches into a growing buffer and evicts one multipart part whenever
//! the buffer exceeds the configured part size.  The writer's central
//! invariant: the bytes of the parts handed to the store, the unflushed
//! buffer, and the records still held by the builder together spell the
//! encoder's serialization of every record inserted, in order.

use vstd::prelude::*;
use vstd::string::StringExecFns;
use crate::multipart::{
    spec_completed_match, spec_in_flight_match, spec_parts_data_match, FileCheckpointData,
    FileToFinish, MultipartAction, MultipartManager, UploadPartOrBufferedData, UploadedPart,
};
use crate::rolling::MultiPartWriterStats;
use crate::table::FileSystemTable;

verus! {

/// The concatenation of a list of byte strings.
pub open spec fn spec_concat_parts(parts: Seq<Seq<u8>>) -> Seq<u8>
    decreases parts.len(),
{
    if parts.len() == 0 {
        Seq::empty()
    } else {
        spec_concat_parts(parts.drop_last()) + parts.last()
    }
}

/// The name a store action carries.
pub open spec fn spec_action_name(a: MultipartAction) -> Seq<char> {
    match a {
        MultipartAction::StartMultipart { name } => name@,
        MultipartAction::UploadPart { name, .. } => name@,
        MultipartAction::FinishedImmediately { name } => name@,
    }
}

/// `x` capped at `usize::MAX`.
pub open spec fn spec_cap_usize(x: int) -> int {
    if x <= usize::MAX {
        x
    } else {
        usize::MAX as int
    }
}

/// Either nothing reached the manager (it is untouched and no action is
/// owed), or exactly one part was enqueued and the manager's
/// write-next-part transition — state and store action — holds for it.
pub open spec fn spec_part_outcome(
    m0: MultipartManager,
    m1: MultipartManager,
    r: Option<MultipartAction>,
) -> bool {
    ||| (m1 == m0 && r is None)
    ||| MultipartManager::spec_write_part_transition(m0, m1, m1.part_bytes@.last(), r)
}

/// Record-level view of a batch value.
pub trait BatchView {
    /// The encoded records this batch carries, in order.
    spec fn records(&self) -> Seq<Seq<u8>>;
}

impl BatchView for Vec<u8> {
    /// A plain byte batch carries exactly one record.
    open spec fn records(&self) -> Seq<Seq<u8>> {
        seq![self@]
    }
}

/// Groups incoming records into batches.
pub trait BatchBuilder: Sized {
    type BatchData: BatchView;

    /// The records accepted but not yet emitted in a batch, in arrival
    /// order.
    spec fn buffered(&self) -> Seq<Seq<u8>>;

    /// A fresh builder holding nothing.
    fn new(config: &FileSystemTable) -> (r: Self)
        ensures
            r.buffered() == Seq::<Seq<u8>>::empty(),
    ;

    /// Accepts one record; may emit a ready batch.  No record is lost
    /// or duplicated: the batch emitted and the records still held
    /// together are the old holdings plus the new record.
    fn insert(&mut self, value: Vec<u8>) -> (r: Option<Self::BatchData>)
        ensures
            old(self).buffered().push(value@) == (match r {
                Some(b) => b.records(),
                None => Seq::<Seq<u8>>::empty(),
            }) + final(self).buffered(),
    ;

    /// The records still held, for checkpointing.
    fn buffered_inputs(&self) -> (r: Vec<Vec<u8>>)
        ensures
            r.deep_view() == self.buffered(),
    ;

    /// Forces the held records out as one (possibly partial) batch.
    fn flush_buffer(&mut self) -> (r: Self::BatchData)
        requires
            old(self).buffered().len() > 0,
        ensures
            r.records() == old(self).buffered(),
            final(self).buffered() == Seq::<Seq<u8>>::empty(),
    ;
}

/// Serializes batches into a growing byte buffer and evicts one
/// multipart part whenever the buffer exceeds the target part size.
pub trait BatchBufferingWriter: Sized {
    type BatchData: BatchView;

    /// The encoder function: the byte stream this writer produces for a
    /// record stream.
    spec fn stream(records: Seq<Seq<u8>>) -> Seq<u8>;

    /// The bytes serialized but not yet evicted.
    spec fn buf(&self) -> Seq<u8>;

    /// The bytes already evicted, in order.
    spec fn flushed(&self) -> Seq<u8>;

    /// The configured part-size threshold.
    spec fn target(&self) -> int;

    /// The file suffix this encoder asks for.
    spec fn spec_suffix() -> Seq<char>;

    /// The encoder is a homomorphism on record streams.
    proof fn lemma_stream_concat(rs1: Seq<Seq<u8>>, rs2: Seq<Seq<u8>>)
        ensures
            Self::stream(rs1 + rs2) == Self::stream(rs1) + Self::stream(rs2),
    ;

    /// An empty record stream serializes to no bytes.
    proof fn lemma_stream_empty()
        ensures
            Self::stream(Seq::<Seq<u8>>::empty()) == Seq::<u8>::empty(),
    ;

    /// A fresh writer with nothing buffered or flushed.
    fn new(config: &FileSystemTable) -> (r: Self)
        ensures
            r.buf() == Seq::<u8>::empty(),
            r.flushed() == Seq::<u8>::empty(),
            r.target() == config.spec_target_part_size(),
    ;

    /// The file suffix.
    fn suffix() -> (r: String)
        ensures
            r@ == Self::spec_suffix(),
    ;

    /// Serializes one batch into the buffer; evicts the whole buffer as
    /// one part exactly when it has grown past the target part size.
    fn add_batch_data(&mut self, data: Self::BatchData) -> (r: Option<Vec<u8>>)
        ensures
            final(self).target() == old(self).target(),
            match r {
                Some(bytes) => bytes@ == old(self).buf() + Self::stream(data.records())
                    && final(self).buf() == Seq::<u8>::empty()
                    && final(self).flushed() == old(self).flushed() + old(self).buf()
                        + Self::stream(data.records())
                    && old(self).buf().len() + Self::stream(data.records()).len() > old(self).target(),
                None => final(self).buf() == old(self).buf() + Self::stream(data.records())
                    && final(self).flushed() == old(self).flushed()
                    && old(self).buf().len() + Self::stream(data.records()).len() <= old(self).target(),
            },
    ;

    /// The current buffer length.
    fn buffer_length(&self) -> (n: usize)
        ensures
            n == self.buf().len(),
    ;

    /// Takes the whole buffer as one part.
    fn evict_current_buffer(&mut self) -> (r: Vec<u8>)
        ensures
            r@ == old(self).buf(),
            final(self).buf() == Seq::<u8>::empty(),
            final(self).flushed() == old(self).flushed() + old(self).buf(),
            final(self).target() == old(self).target(),
    ;

    /// A snapshot of the unflushed bytes, for checkpointing; absent
    /// when the buffer is empty.
    fn get_trailing_bytes_for_checkpoint(&self) -> (r: Option<Vec<u8>>)
        ensures
            r is None <==> self.buf().len() == 0,
            r matches Some(b) ==> b@ == self.buf(),
    ;

    /// Serializes the final batch, if any, and evicts whatever the
    /// buffer then holds; `None` exactly when there is nothing to
    /// write.
    fn close(&mut self, final_batch: Option<Self::BatchData>) -> (r: Option<Vec<u8>>)
        ensures
            ({
                let add = match final_batch {
                    Some(b) => Self::stream(b.records()),
                    None => Seq::<u8>::empty(),
                };
                &&& final(self).buf() == Seq::<u8>::empty()
                &&& final(self).target() == old(self).target()
                &&& final(self).flushed() == old(self).flushed() + old(self).buf() + add
                &&& match r {
                    Some(bytes) => bytes@ == old(self).buf() + add && bytes@.len() > 0,
                    None => old(self).buf().len() + add.len() == 0,
                }
            }),
    ;
}

/// One file's writer: encoder pipeline plus multipart manager.
pub struct BatchMultipartWriter<BB: BatchBuilder, BBW: BatchBufferingWriter<BatchData = BB::BatchData>> {
    pub batch_builder: BB,
    pub batch_buffering_writer: BBW,
    pub multipart_manager: MultipartManager,
    pub stats: Option<MultiPartWriterStats>,
    /// Every record inserted into this writer, in order.
    pub records: Ghost<Seq<Seq<u8>>>,
}

impl<BB: BatchBuilder, BBW: BatchBufferingWriter<BatchData = BB::BatchData>> BatchMultipartWriter<
    BB,
    BBW,
> {
    /// The file's content so far: the bytes of its parts, concatenated
    /// in part-index order.
    pub open spec fn file_bytes(&self) -> Seq<u8> {
        spec_concat_parts(self.multipart_manager.part_bytes@)
    }

    /// Well-formedness: the manager is well-formed; the evicted bytes
    /// are exactly the parts' bytes; no byte of any inserted record is
    /// lost or duplicated; a closed writer has flushed everything.
    pub open spec fn wf(&self) -> bool {
        &&& self.multipart_manager.wf()
        &&& self.batch_buffering_writer.flushed() == self.file_bytes()
        &&& self.batch_buffering_writer.flushed() + self.batch_buffering_writer.buf()
            + BBW::stream(self.batch_builder.buffered()) == BBW::stream(self.records@)
        &&& (self.multipart_manager.closed ==> self.batch_buffering_writer.buf().len() == 0
            && self.batch_builder.buffered().len() == 0)
    }

    /// A closed writer's parts spell the encoder's serialization of all
    /// its records: no byte lost, none duplicated.
    pub proof fn lemma_closed_file_bytes(&self)
        requires
            self.wf(),
            self.multipart_manager.closed,
        ensures
            self.file_bytes() == BBW::stream(self.records@),
    {
        BBW::lemma_stream_empty();
        assert(self.batch_builder.buffered() =~= Seq::<Seq<u8>>::empty());
        assert(self.batch_buffering_writer.buf() =~= Seq::<u8>::empty());
        assert(self.batch_buffering_writer.flushed() + Seq::<u8>::empty()
            =~= self.batch_buffering_writer.flushed());
        assert(self.batch_buffering_writer.flushed() + self.batch_buffering_writer.buf()
            + BBW::stream(self.batch_builder.buffered())
            =~= self.batch_buffering_writer.flushed());
    }

    /// A fresh writer for file index and subtask already encoded in
    /// `path`; the encoder's suffix completes the file name.
    pub fn new(path: String, config: &FileSystemTable) -> (r: Self)
        ensures
            r.wf(),
            !r.multipart_manager.closed,
            r.multipart_manager.multipart_id is None,
            r.multipart_manager.pushed_parts@.len() == 0,
            r.multipart_manager.parts_to_add@.len() == 0,
            r.records@ == Seq::<Seq<u8>>::empty(),
            r.stats is None,
            r.multipart_manager.location@ == path@ + "."@ + BBW::spec_suffix(),
    {
        let batch_builder = BB::new(config);
        let batch_buffering_writer = BBW::new(config);
        let suffix = BBW::suffix();
        let full_path = path.concat(".").concat(suffix.as_str());
        let r = BatchMultipartWriter {
            batch_builder,
            batch_buffering_writer,
            multipart_manager: MultipartManager::new(full_path),
            stats: None,
            records: Ghost(Seq::empty()),
        };
        proof {
            BBW::lemma_stream_empty();
            assert(r.multipart_manager.part_bytes@ =~= Seq::<Seq<u8>>::empty());
            assert(r.file_bytes() =~= Seq::<u8>::empty());
            assert(r.batch_buffering_writer.flushed() + r.batch_buffering_writer.buf()
                + BBW::stream(r.batch_builder.buffered()) =~= BBW::stream(r.records@));
        }
        r
    }

    /// The file's name.
    pub fn name(&self) -> (r: String)
        ensures
            r@ == self.multipart_manager.location@,
    {
        self.multipart_manager.name()
    }

    /// The writer's statistics; absent until the first insert.
    pub fn stats(&self) -> (r: Option<MultiPartWriterStats>)
        ensures
            r == self.stats,
    {
        match &self.stats {
            Some(s) => Some(MultiPartWriterStats {
                bytes_written: s.bytes_written,
                parts_written: s.parts_written,
                last_write_at: s.last_write_at,
                first_write_at: s.first_write_at,
            }),
            None => None,
        }
    }

    /// The records held by the builder, for checkpointing.
    pub fn currently_buffered_data(&self) -> (r: Vec<Vec<u8>>)
        ensures
            r.deep_view() == self.batch_builder.buffered(),
    {
        self.batch_builder.buffered_inputs()
    }

    /// Accepts one encoded record.  Statistics are created on the first
    /// insert and updated on every one; when the encoder evicts a part,
    /// the part goes to the multipart manager and the store action comes
    /// back to the caller.
    pub fn insert_value(&mut self, value: Vec<u8>, now_millis: u64) -> (r: Option<MultipartAction>)
        requires
            old(self).wf(),
            !old(self).multipart_manager.closed,
        ensures
            final(self).wf(),
            !final(self).multipart_manager.closed,
            final(self).records@ == old(self).records@.push(value@),
            final(self).multipart_manager.location@ == old(self).multipart_manager.location@,
            final(self).multipart_manager.multipart_id == old(self).multipart_manager.multipart_id
                || final(self).multipart_manager.multipart_id is Some,
            final(self).stats matches Some(st) && st.last_write_at == now_millis
                && st.first_write_at == (match old(self).stats {
                Some(os) => os.first_write_at,
                None => now_millis,
            }),
            // the statistics the rolling policy reads are exact: bytes
            // grow by what was newly encoded, the part count by one
            // exactly when a part was evicted (saturating at the
            // machine limit, so neither ever decreases)
            ({
                let ob: int = match old(self).stats {
                    Some(os) => os.bytes_written as int,
                    None => 0,
                };
                let op: int = match old(self).stats {
                    Some(os) => os.parts_written as int,
                    None => 0,
                };
                let encoded_delta: int = final(self).batch_buffering_writer.flushed().len()
                    + final(self).batch_buffering_writer.buf().len()
                    - old(self).batch_buffering_writer.flushed().len()
                    - old(self).batch_buffering_writer.buf().len();
                &&& final(self).stats->0.bytes_written as int == spec_cap_usize(ob + encoded_delta)
                &&& final(self).stats->0.parts_written as int
                    == (if final(self).multipart_manager.part_bytes@.len()
                    == old(self).multipart_manager.part_bytes@.len() + 1 {
                    spec_cap_usize(op + 1)
                } else {
                    op
                })
            }),
            // either no part was evicted and the manager is untouched,
            // or the evicted block became the file's next part with the
            // store action that uploads exactly it
            spec_part_outcome(old(self).multipart_manager, final(self).multipart_manager, r),
            r matches Some(a) ==> spec_action_name(a) == old(self).multipart_manager.location@,
    {
        let ghost old_records = self.records@;
        let ghost old_buffered = self.batch_builder.buffered();
        let ghost old_flushed = self.batch_buffering_writer.flushed();
        let ghost old_buf = self.batch_buffering_writer.buf();
        let (first_write_at, bytes_written, parts_written): (u64, usize, usize) = match &self.stats {
            Some(s) => (s.first_write_at, s.bytes_written, s.parts_written),
            None => (now_millis, 0, 0),
        };
        proof {
            self.records@ = self.records@.push(value@);
        }
        let ghost value_view = value@;
        let batch = self.batch_builder.insert(value);
        let ghost emitted: Seq<Seq<u8>> = match &batch {
            Some(b) => b.records(),
            None => Seq::empty(),
        };
        proof {
            // stream(records') == stream(records) + stream([value])
            assert(old_records.push(value_view) =~= old_records + seq![value_view]);
            BBW::lemma_stream_concat(old_records, seq![value_view]);
            // stream(emitted) + stream(buffered') == stream(buffered) + stream([value])
            assert(old_buffered.push(value_view) =~= old_buffered + seq![value_view]);
            BBW::lemma_stream_concat(old_buffered, seq![value_view]);
            BBW::lemma_stream_concat(emitted, self.batch_builder.buffered());
            BBW::lemma_stream_empty();
            assert(emitted + self.batch_builder.buffered() == old_buffered.push(value_view));
            assert(Seq::<Seq<u8>>::empty() + self.batch_builder.buffered()
                =~= self.batch_builder.buffered());
        }
        let result: Option<MultipartAction>;
        let new_bytes_written: usize;
        let new_parts_written: usize;
        match batch {
            Some(b) => {
                let prev_size = self.batch_buffering_writer.buffer_length();
                match self.batch_buffering_writer.add_batch_data(b) {
                    Some(bytes) => {
                        new_bytes_written = saturating_add_usize(
                            bytes_written,
                            bytes.len() - prev_size,
                        );
                        new_parts_written = saturating_add_usize(parts_written, 1);
                        let ghost pb0 = self.multipart_manager.part_bytes@;
                        let ghost bytes_view = bytes@;
                        result = self.multipart_manager.write_next_part(bytes);
                        proof {
                            spec_concat_parts_push(pb0, bytes_view);
                            assert(self.multipart_manager.part_bytes@ == pb0.push(bytes_view));
                            assert(self.file_bytes() == spec_concat_parts(pb0) + bytes_view);
                            assert(self.batch_buffering_writer.flushed() == old_flushed + old_buf
                                + BBW::stream(emitted));
                            assert(self.batch_buffering_writer.flushed() == self.file_bytes());
                        }
                    },
                    None => {
                        let new_size = self.batch_buffering_writer.buffer_length();
                        new_bytes_written = saturating_add_usize(bytes_written, new_size - prev_size);
                        new_parts_written = parts_written;
                        result = None;
                    },
                }
            },
            None => {
                new_bytes_written = bytes_written;
                new_parts_written = parts_written;
                result = None;
            },
        }
        proof {
            let e = BBW::stream(emitted);
            let n = BBW::stream(self.batch_builder.buffered());
            let ob = BBW::stream(old_buffered);
            let v = BBW::stream(seq![value_view]);
            assert(e + n == ob + v);
            lemma_stream_rebalance(old_flushed, old_buf, e, n, ob, v);
            assert(BBW::stream(self.records@) == (old_flushed + old_buf + ob) + v);
            assert(self.batch_buffering_writer.flushed() + self.batch_buffering_writer.buf() + n
                =~= (old_flushed + old_buf + e) + n);
            assert(self.batch_buffering_writer.flushed() + self.batch_buffering_writer.buf()
                + BBW::stream(self.batch_builder.buffered()) == BBW::stream(self.records@));
        }
        self.stats = Some(MultiPartWriterStats {
            bytes_written: new_bytes_written,
            parts_written: new_parts_written,
            last_write_at: now_millis,
            first_write_at,
        });
        result
    }

    /// The closing transition of one writer and the store action it
    /// owes: the writer ends closed with every record's bytes in its
    /// parts; either nothing remained to write — the manager's parts
    /// are untouched and the finish announcement comes exactly when
    /// nothing is outstanding — or the remaining bytes became one
    /// final part, with the action that uploads exactly that part.
    pub open spec fn spec_close_outcome(w0: Self, w1: Self, r: Option<MultipartAction>) -> bool {
        &&& w1.multipart_manager.closed
        &&& w1.records@ == w0.records@
        &&& w1.multipart_manager.location@ == w0.multipart_manager.location@
        &&& w1.file_bytes() == BBW::stream(w1.records@)
        &&& (w1.multipart_manager.spec_all_uploads_finished()
            && w1.multipart_manager.parts_to_add@.len() == 0 ==> r is Some)
        &&& (r matches Some(a) ==> spec_action_name(a) == w0.multipart_manager.location@)
        &&& ((r matches Some(a) && a is FinishedImmediately)
            ==> w1.multipart_manager.spec_all_uploads_finished())
        &&& ({
            ||| (w1.multipart_manager.part_bytes@ == w0.multipart_manager.part_bytes@
                && w1.multipart_manager.pushed_parts@ == w0.multipart_manager.pushed_parts@
                && w1.multipart_manager.parts_to_add@ == w0.multipart_manager.parts_to_add@
                && w1.multipart_manager.multipart_id == w0.multipart_manager.multipart_id
                && w1.multipart_manager.uploaded_parts == w0.multipart_manager.uploaded_parts
                && (r is Some <==> w1.multipart_manager.spec_all_uploads_finished())
                && (r matches Some(a) ==> a is FinishedImmediately))
            ||| MultipartManager::spec_write_part_transition(
                MultipartManager { closed: true, ..w0.multipart_manager },
                w1.multipart_manager,
                w1.multipart_manager.part_bytes@.last(),
                r,
            )
        })
    }

    /// Closes the writer: flushes the builder and the encoder; a final
    /// part upload is requested if bytes remained, and a file that has
    /// nothing left outstanding announces itself finished.
    pub fn close(&mut self) -> (r: Option<MultipartAction>)
        requires
            old(self).wf(),
            !old(self).multipart_manager.closed,
        ensures
            final(self).wf(),
            final(self).multipart_manager.closed,
            final(self).records@ == old(self).records@,
            final(self).multipart_manager.location@ == old(self).multipart_manager.location@,
            final(self).file_bytes() == BBW::stream(final(self).records@),
            final(self).multipart_manager.spec_all_uploads_finished()
                && final(self).multipart_manager.parts_to_add@.len() == 0 ==> r is Some,
            r matches Some(a) ==> spec_action_name(a) == old(self).multipart_manager.location@,
            (r matches Some(a) && a is FinishedImmediately)
                ==> final(self).multipart_manager.spec_all_uploads_finished(),
            // either nothing remained to write — the manager's parts
            // are untouched and the finish announcement comes exactly
            // when nothing is outstanding — or the remaining bytes
            // became one final part, with the store action that
            // uploads exactly that part
            ({
                ||| (final(self).multipart_manager.part_bytes@
                    == old(self).multipart_manager.part_bytes@
                    && final(self).multipart_manager.pushed_parts@
                    == old(self).multipart_manager.pushed_parts@
                    && final(self).multipart_manager.parts_to_add@
                    == old(self).multipart_manager.parts_to_add@
                    && final(self).multipart_manager.multipart_id
                    == old(self).multipart_manager.multipart_id
                    && final(self).multipart_manager.uploaded_parts
                    == old(self).multipart_manager.uploaded_parts
                    && (r is Some <==> final(self).multipart_manager.spec_all_uploads_finished())
                    && (r matches Some(a) ==> a is FinishedImmediately))
                ||| MultipartManager::spec_write_part_transition(
                    MultipartManager {
                        closed: true,
                        ..old(self).multipart_manager
                    },
                    final(self).multipart_manager,
                    final(self).multipart_manager.part_bytes@.last(),
                    r,
                )
            }),
            Self::spec_close_outcome(*old(self), *final(self), r),
    {
        self.multipart_manager.closed = true;
        let final_batch: Option<BB::BatchData> = if self.batch_builder.buffered_inputs().len() > 0 {
            proof {
                assert(self.batch_builder.buffered().len() > 0);
            }
            Some(self.batch_builder.flush_buffer())
        } else {
            proof {
                assert(self.batch_builder.buffered() =~= Seq::<Seq<u8>>::empty());
            }
            None
        };
        proof {
            BBW::lemma_stream_empty();
        }
        let ghost old_flushed = self.batch_buffering_writer.flushed();
        let ghost old_buf = self.batch_buffering_writer.buf();
        let ghost add_stream: Seq<u8> = match &final_batch {
            Some(b) => BBW::stream(b.records()),
            None => Seq::empty(),
        };
        let flushed = self.batch_buffering_writer.close(final_batch);
        proof {
            assert(self.batch_buffering_writer.flushed() == old_flushed + old_buf + add_stream);
            assert(old_flushed == spec_concat_parts(self.multipart_manager.part_bytes@));
        }
        match flushed {
            Some(bytes) => {
                let ghost pb0 = self.multipart_manager.part_bytes@;
                let ghost bytes_view = bytes@;
                proof {
                    assert(bytes_view == old_buf + add_stream);
                }
                let act = self.multipart_manager.write_next_part(bytes);
                proof {
                    spec_concat_parts_push(pb0, bytes_view);
                    assert(self.multipart_manager.part_bytes@ == pb0.push(bytes_view));
                    assert(self.file_bytes() == spec_concat_parts(pb0) + bytes_view);
                    assert(self.batch_buffering_writer.flushed() == old_flushed + old_buf + add_stream);
                    assert(self.batch_buffering_writer.flushed() == self.file_bytes());
                    lemma_final_close_accounting::<BB, BBW>(*self);
                }
                act
            },
            None => {
                proof {
                    assert(self.batch_buffering_writer.flushed() + Seq::<u8>::empty()
                        =~= self.batch_buffering_writer.flushed());
                    lemma_final_close_accounting::<BB, BBW>(*self);
                }
                if self.multipart_manager.all_uploads_finished() {
                    // the file is complete with no store call outstanding
                    Some(MultipartAction::FinishedImmediately { name: self.multipart_manager.name() })
                } else {
                    None
                }
            },
        }
    }

    /// Relays the store's upload id to the manager.
    pub fn handle_initialization(&mut self, multipart_id: String) -> (acts: Vec<MultipartAction>)
        requires
            old(self).wf(),
            old(self).multipart_manager.multipart_id is None,
        ensures
            final(self).wf(),
            final(self).records@ == old(self).records@,
            final(self).multipart_manager.closed == old(self).multipart_manager.closed,
            final(self).multipart_manager.location@ == old(self).multipart_manager.location@,
            final(self).multipart_manager.multipart_id is Some,
            final(self).file_bytes() == old(self).file_bytes(),
            // the manager's initialization transition holds: the id is
            // recorded and the actions are exactly the queued parts'
            // uploads, in part-index order
            MultipartManager::spec_init_transition(
                old(self).multipart_manager,
                final(self).multipart_manager,
                multipart_id@,
                acts@,
            ),
            forall|i: int|
                0 <= i < acts@.len() ==> spec_action_name(#[trigger] acts@[i])
                    == old(self).multipart_manager.location@,
    {
        let acts = self.multipart_manager.handle_initialization(multipart_id);
        proof {
            assert forall|i: int| 0 <= i < acts@.len() implies spec_action_name(#[trigger] acts@[i])
                == old(self).multipart_manager.location@ by {
                assert(acts@[i] matches MultipartAction::UploadPart { name, .. }
                    && name@ == old(self).multipart_manager.location@);
            }
        }
        acts
    }

    /// Relays the store's acknowledgement of one part.  Returns the
    /// file's pre-commit token exactly when this was the last
    /// acknowledgement outstanding on the closed file.
    pub fn handle_completed_part(&mut self, part_idx: usize, upload_part: UploadedPart) -> (r:
        Option<FileToFinish>)
        requires
            old(self).wf(),
            part_idx < old(self).multipart_manager.pushed_parts@.len(),
            old(self).multipart_manager.pushed_parts@[part_idx as int] is BufferedData,
        ensures
            final(self).wf(),
            final(self).records@ == old(self).records@,
            final(self).multipart_manager.closed == old(self).multipart_manager.closed,
            final(self).multipart_manager.location@ == old(self).multipart_manager.location@,
            final(self).file_bytes() == old(self).file_bytes(),
            final(self).multipart_manager.multipart_id == old(self).multipart_manager.multipart_id,
            final(self).multipart_manager.parts_to_add@ == old(self).multipart_manager.parts_to_add@,
            final(self).multipart_manager.part_bytes@ == old(self).multipart_manager.part_bytes@,
            final(self).multipart_manager.pushed_parts@
                == old(self).multipart_manager.pushed_parts@.update(
                part_idx as int,
                UploadPartOrBufferedData::UploadPart(upload_part),
            ),
            final(self).multipart_manager.uploaded_parts
                == old(self).multipart_manager.uploaded_parts + 1,
            r is Some <==> final(self).multipart_manager.spec_all_uploads_finished(),
            r matches Some(f) ==> final(self).multipart_manager.spec_finish_of(f),
            r matches Some(f) ==> MultipartManager::spec_completed_token(
                old(self).multipart_manager,
                part_idx as int,
                upload_part,
                f,
            ),
    {
        self.multipart_manager.handle_completed_part(part_idx, upload_part)
    }

    /// The pre-commit token of a file whose uploads have all finished.
    pub fn get_finished_file(&self) -> (r: FileToFinish)
        requires
            self.wf(),
            self.multipart_manager.spec_all_uploads_finished(),
            self.multipart_manager.multipart_id is Some,
        ensures
            self.multipart_manager.spec_finish_of(r),
    {
        self.multipart_manager.get_finished_file()
    }

    /// Whether `r` is the correct checkpoint projection of this
    /// writer's state: one of the five snapshot variants, chosen by
    /// `(closed, multipart id, parts)`, carrying the queued payloads,
    /// the pushed slots, the acknowledged content ids, and — for an
    /// open file — the encoder's unflushed bytes as trailing bytes.
    pub open spec fn spec_checkpoint_of(&self, r: FileCheckpointData) -> bool {
        let m = self.multipart_manager;
        let buf = self.batch_buffering_writer.buf();
        if m.closed {
            &&& (m.multipart_id is None && m.parts_to_add@.len() == 0 ==> r is Empty)
            &&& (m.multipart_id is None && m.parts_to_add@.len() > 0 ==> (r matches
                FileCheckpointData::MultiPartNotCreated { parts_to_add, trailing_bytes }
                && trailing_bytes is None && spec_parts_data_match(m.parts_to_add@, parts_to_add@)))
            &&& (m.multipart_id is Some && m.spec_all_uploads_finished() ==> (r matches
                FileCheckpointData::MultiPartWriterUploadCompleted {
                    multi_part_upload_id,
                    completed_parts,
                } && multi_part_upload_id@ == m.multipart_id->0@
                && spec_completed_match(m.pushed_parts@, completed_parts@)))
            &&& (m.multipart_id is Some && !m.spec_all_uploads_finished() ==> (r matches
                FileCheckpointData::MultiPartWriterClosed { multi_part_upload_id, in_flight_parts }
                && multi_part_upload_id@ == m.multipart_id->0@
                && spec_in_flight_match(m.pushed_parts@, in_flight_parts@)))
        } else {
            &&& (m.multipart_id is None ==> (r matches FileCheckpointData::MultiPartNotCreated {
                parts_to_add,
                trailing_bytes,
            } && spec_parts_data_match(m.parts_to_add@, parts_to_add@) && (trailing_bytes is None
                <==> buf.len() == 0) && (trailing_bytes matches Some(b) ==> b@ == buf)))
            &&& (m.multipart_id is Some ==> (r matches FileCheckpointData::MultiPartInFlight {
                multi_part_upload_id,
                in_flight_parts,
                trailing_bytes,
            } && multi_part_upload_id@ == m.multipart_id->0@
                && spec_in_flight_match(m.pushed_parts@, in_flight_parts@)
                && (trailing_bytes is None <==> buf.len() == 0) && (trailing_bytes matches Some(b)
                ==> b@ == buf)))
        }
    }

    /// The checkpoint projection of this writer: the closed projection
    /// once the file is closed, the in-progress projection (with the
    /// encoder's unflushed bytes as trailing bytes) while it is open.
    pub fn get_in_progress_checkpoint(&self) -> (r: FileCheckpointData)
        requires
            self.wf(),
        ensures
            self.spec_checkpoint_of(r),
    {
        if self.multipart_manager.closed {
            self.multipart_manager.get_closed_file_checkpoint_data()
        } else {
            self.multipart_manager.get_in_progress_checkpoint(
                self.batch_buffering_writer.get_trailing_bytes_for_checkpoint(),
            )
        }
    }
}

/// Close leaves the accounting equation in its final shape; factored
/// out of `close` for both exit paths.
proof fn lemma_final_close_accounting<BB: BatchBuilder, BBW: BatchBufferingWriter<BatchData = BB::BatchData>>(
    w: BatchMultipartWriter<BB, BBW>,
)
    requires
        w.multipart_manager.wf(),
        w.batch_buffering_writer.flushed() == w.file_bytes(),
        w.batch_buffering_writer.flushed() + w.batch_buffering_writer.buf() + BBW::stream(
            w.batch_builder.buffered(),
        ) == BBW::stream(w.records@),
        w.batch_buffering_writer.buf().len() == 0,
        w.batch_builder.buffered().len() == 0,
    ensures
        w.wf(),
        w.file_bytes() == BBW::stream(w.records@),
{
    BBW::lemma_stream_empty();
    assert(w.batch_builder.buffered() =~= Seq::<Seq<u8>>::empty());
    assert(w.batch_buffering_writer.buf() =~= Seq::<u8>::empty());
    assert(w.batch_buffering_writer.flushed() + Seq::<u8>::empty() + Seq::<u8>::empty()
        =~= w.batch_buffering_writer.flushed());
}

/// Regrouping of the writer's accounting equation: if the bytes the
/// encoder emitted and still buffers equal the old buffering plus one
/// record's stream, the grouped sums agree.
proof fn lemma_stream_rebalance(f: Seq<u8>, b: Seq<u8>, e: Seq<u8>, n: Seq<u8>, ob: Seq<u8>, v: Seq<u8>)
    requires
        e + n == ob + v,
    ensures
        (f + b + e) + n =~= (f + b + ob) + v,
{
    assert((f + b + e) + n =~= (f + b) + (e + n));
    assert((f + b) + (e + n) == (f + b) + (ob + v));
    assert((f + b) + (ob + v) =~= (f + b + ob) + v);
}

/// Appending one part extends the concatenation by that part's bytes.
pub proof fn spec_concat_parts_push(parts: Seq<Seq<u8>>, x: Seq<u8>)
    ensures
        spec_concat_parts(parts.push(x)) == spec_concat_parts(parts) + x,
{
    assert(parts.push(x).drop_last() =~= parts);
    assert(parts.push(x).last() == x);
}

/// `a + b`, capped at `usize::MAX`.
pub open spec fn spec_saturating_add_usize(a: usize, b: usize) -> int {
    if a + b <= usize::MAX {
        a + b
    } else {
        usize::MAX as int
    }
}

/// Adds two counters, saturating at `usize::MAX`.
pub fn saturating_add_usize(a: usize, b: usize) -> (r: usize)
    ensures
        r as int == spec_saturating_add_usize(a, b),
{
    if a <= usize::MAX - b {
        a + b
    } else {
        usize::MAX
    }
}

} // verus!
