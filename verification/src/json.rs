//! The JSON encoder pair: a pass-through batch builder and a
//! newline-delimited buffering writer.
//!
//! Records arrive already serialized (one JSON document per record, as
//! bytes); the writer appends each followed by a newline, so a file is
//! the records joined by newlines, one per line.

use vstd::prelude::*;
use vstd::string::StringExecFns;
use crate::table::FileSystemTable;
use crate::writer::{BatchBuilder, BatchBufferingWriter, BatchView};

verus! {

/// The newline-delimited serialization of a record stream: each record's
/// bytes followed by one line feed.
pub open spec fn spec_json_stream(records: Seq<Seq<u8>>) -> Seq<u8>
    decreases records.len(),
{
    if records.len() == 0 {
        Seq::empty()
    } else {
        spec_json_stream(records.drop_last()) + records.last() + seq![10u8]
    }
}

/// Appending one record extends the stream by that record and a newline.
pub proof fn lemma_json_stream_push(records: Seq<Seq<u8>>, r: Seq<u8>)
    ensures
        spec_json_stream(records.push(r)) == spec_json_stream(records) + r + seq![10u8],
{
    assert(records.push(r).drop_last() =~= records);
    assert(records.push(r).last() == r);
}

/// The serialization of concatenated streams is the concatenation of
/// the serializations.
pub proof fn lemma_json_stream_concat(rs1: Seq<Seq<u8>>, rs2: Seq<Seq<u8>>)
    ensures
        spec_json_stream(rs1 + rs2) == spec_json_stream(rs1) + spec_json_stream(rs2),
    decreases rs2.len(),
{
    if rs2.len() == 0 {
        assert(rs1 + rs2 =~= rs1);
        assert(spec_json_stream(rs2) == Seq::<u8>::empty());
        assert(spec_json_stream(rs1) + Seq::<u8>::empty() =~= spec_json_stream(rs1));
    } else {
        lemma_json_stream_concat(rs1, rs2.drop_last());
        assert((rs1 + rs2).drop_last() =~= rs1 + rs2.drop_last());
        assert((rs1 + rs2).last() == rs2.last());
        assert(spec_json_stream(rs1 + rs2) == spec_json_stream(rs1 + rs2.drop_last())
            + rs2.last() + seq![10u8]);
        assert(spec_json_stream(rs1) + (spec_json_stream(rs2.drop_last()) + rs2.last() + seq![10u8])
            =~= (spec_json_stream(rs1) + spec_json_stream(rs2.drop_last())) + rs2.last()
            + seq![10u8]);
    }
}

/// A batch builder that forwards each record as its own batch and holds
/// nothing back.
pub struct PassThrough {
}

impl BatchBuilder for PassThrough {
    type BatchData = Vec<u8>;

    /// Nothing is ever held.
    open spec fn buffered(&self) -> Seq<Seq<u8>> {
        Seq::empty()
    }

    fn new(_config: &FileSystemTable) -> (r: Self) {
        PassThrough {  }
    }

    fn insert(&mut self, value: Vec<u8>) -> (r: Option<Vec<u8>>) {
        proof {
            assert(Seq::<Seq<u8>>::empty().push(value@) =~= seq![value@]
                + Seq::<Seq<u8>>::empty());
        }
        Some(value)
    }

    fn buffered_inputs(&self) -> (r: Vec<Vec<u8>>) {
        let r: Vec<Vec<u8>> = Vec::new();
        proof {
            assert(r.deep_view() =~= Seq::<Seq<u8>>::empty());
        }
        r
    }

    fn flush_buffer(&mut self) -> (r: Vec<u8>) {
        // a pass-through builder never holds records, so this is never
        // reached: its precondition is unsatisfiable
        vstd::pervasive::unreached()
    }
}

/// Buffers newline-delimited records and evicts one multipart part
/// whenever the buffer exceeds the target part size.
pub struct JsonWriter {
    pub current_buffer: Vec<u8>,
    pub target_part_size: usize,
    /// The bytes already evicted, in order.
    pub flushed_bytes: Ghost<Seq<u8>>,
}

impl BatchBufferingWriter for JsonWriter {
    type BatchData = Vec<u8>;

    /// One record per line.
    open spec fn stream(records: Seq<Seq<u8>>) -> Seq<u8> {
        spec_json_stream(records)
    }

    open spec fn buf(&self) -> Seq<u8> {
        self.current_buffer@
    }

    open spec fn flushed(&self) -> Seq<u8> {
        self.flushed_bytes@
    }

    open spec fn target(&self) -> int {
        self.target_part_size as int
    }

    open spec fn spec_suffix() -> Seq<char> {
        "json"@
    }

    proof fn lemma_stream_concat(rs1: Seq<Seq<u8>>, rs2: Seq<Seq<u8>>) {
        lemma_json_stream_concat(rs1, rs2);
    }

    proof fn lemma_stream_empty() {
    }

    fn new(config: &FileSystemTable) -> (r: Self) {
        JsonWriter {
            current_buffer: Vec::new(),
            target_part_size: config.target_part_size(),
            flushed_bytes: Ghost(Seq::empty()),
        }
    }

    fn suffix() -> (r: String) {
        String::from_str("json")
    }

    fn add_batch_data(&mut self, data: Vec<u8>) -> (r: Option<Vec<u8>>) {
        let ghost old_buf = self.current_buffer@;
        let ghost data_view = data@;
        let mut data = data;
        self.current_buffer.append(&mut data);
        self.current_buffer.push(10u8);
        proof {
            lemma_json_stream_push(Seq::<Seq<u8>>::empty(), data_view);
            assert(Seq::<Seq<u8>>::empty().push(data_view) =~= seq![data_view]);
            assert(spec_json_stream(Seq::<Seq<u8>>::empty()) == Seq::<u8>::empty());
            assert(Seq::<u8>::empty() + data_view + seq![10u8] =~= data_view + seq![10u8]);
            assert(spec_json_stream(seq![data_view]) == data_view + seq![10u8]);
            assert(self.current_buffer@ =~= old_buf + (data_view + seq![10u8]));
        }
        if self.buffer_length() > self.target_part_size {
            Some(self.evict_current_buffer())
        } else {
            None
        }
    }

    fn buffer_length(&self) -> (n: usize) {
        self.current_buffer.len()
    }

    fn evict_current_buffer(&mut self) -> (r: Vec<u8>) {
        let mut result: Vec<u8> = Vec::new();
        core::mem::swap(&mut result, &mut self.current_buffer);
        proof {
            self.flushed_bytes@ = self.flushed_bytes@ + result@;
        }
        result
    }

    fn get_trailing_bytes_for_checkpoint(&self) -> (r: Option<Vec<u8>>) {
        if self.current_buffer.len() == 0 {
            None
        } else {
            let b = self.current_buffer.clone();
            proof {
                assert(b@ =~= self.current_buffer@);
            }
            Some(b)
        }
    }

    fn close(&mut self, final_batch: Option<Vec<u8>>) -> (r: Option<Vec<u8>>) {
        let ghost old_buf = self.current_buffer@;
        let r = match final_batch {
            Some(final_batch) => {
                match self.add_batch_data(final_batch) {
                    Some(evicted) => Some(evicted),
                    None => {
                        if self.buffer_length() == 0 {
                            proof {
                                assert(false);
                            }
                            None
                        } else {
                            Some(self.evict_current_buffer())
                        }
                    },
                }
            },
            None => {
                if self.buffer_length() == 0 {
                    None
                } else {
                    Some(self.evict_current_buffer())
                }
            },
        };
        proof {
            if r is None {
                assert(self.flushed_bytes@ =~= old(self).flushed_bytes@ + old_buf
                    + Seq::<u8>::empty());
            }
        }
        r
    }
}

} // verus!
