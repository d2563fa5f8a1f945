//! The output-capture pipeline of one stream of one task.
//!
//! A dedicated reader per stream repeatedly reads a fixed-size buffer's worth
//! of bytes, decodes it permissively as text, and emits one chunk event per
//! non-empty read, tagged with the stream. A zero-length read marks end of
//! stream and stops the reader cleanly. Within one stream the emitted events
//! preserve read order exactly; nothing is retained for replay.

use vstd::prelude::*;

use crate::ws::{IoType, TaskIoChunk};

verus! {

/// The text that permissive UTF-8 decoding yields for a byte sequence.
pub uninterp spec fn lossy_of(bytes: Seq<u8>) -> Seq<char>;

/// Relies on `String::from_utf8_lossy`: decodes bytes as UTF-8, replacing
/// invalid sequences instead of failing; the result depends on the bytes
/// alone, and no bytes decode to no text.
#[verifier::external_body]
fn decode_lossy(bytes: &[u8]) -> (r: String)
    ensures
        r@ == lossy_of(bytes@),
        bytes@.len() == 0 ==> r@.len() == 0,
{
    String::from_utf8_lossy(bytes).into_owned()
}

/// The byte payloads the pipeline emits for a sequence of fixed-size reads:
/// one payload per non-empty read, in read order, stopping at the first
/// zero-length read (end of stream).
pub open spec fn emitted_payloads(reads: Seq<Seq<u8>>) -> Seq<Seq<u8>>
    decreases reads.len(),
{
    if reads.len() == 0 {
        Seq::empty()
    } else if reads[0].len() == 0 {
        Seq::empty()
    } else {
        seq![reads[0]] + emitted_payloads(reads.drop_first())
    }
}

/// All payloads of a sequence, joined in order into one byte sequence.
pub open spec fn concat_bytes(chunks: Seq<Seq<u8>>) -> Seq<u8>
    decreases chunks.len(),
{
    if chunks.len() == 0 {
        Seq::empty()
    } else {
        chunks[0] + concat_bytes(chunks.drop_first())
    }
}

/// Chunk events preserve read order with no duplicates and none lost: if the
/// reads up to position `k` are non-empty and the read at `k` (if any) is the
/// end of the stream, exactly the first `k` reads are emitted, each once, in
/// read order — and nothing read after end of stream is ever emitted.
pub proof fn lemma_chunks_in_read_order(reads: Seq<Seq<u8>>, k: int)
    requires
        0 <= k <= reads.len(),
        forall|i: int| 0 <= i < k ==> #[trigger] reads[i].len() > 0,
        k < reads.len() ==> reads[k].len() == 0,
    ensures
        emitted_payloads(reads).len() == k,
        forall|i: int| 0 <= i < k ==> #[trigger] emitted_payloads(reads)[i] == reads[i],
    decreases reads.len(),
{
    if reads.len() == 0 || reads[0].len() == 0 {
    } else {
        lemma_chunks_in_read_order(reads.drop_first(), k - 1);
        assert forall|i: int| 0 <= i < k implies #[trigger] emitted_payloads(reads)[i]
            == reads[i] by {
            if i > 0 {
                assert(emitted_payloads(reads)[i] == emitted_payloads(reads.drop_first())[i - 1]);
                assert(reads.drop_first()[i - 1] == reads[i]);
            }
        }
    }
}

/// Concatenating the emitted payloads in order reproduces the produced bytes
/// exactly: the pipeline neither drops, duplicates, nor reorders bytes of one
/// stream up to end of stream.
pub proof fn lemma_reassembly(reads: Seq<Seq<u8>>, k: int)
    requires
        0 <= k <= reads.len(),
        forall|i: int| 0 <= i < k ==> #[trigger] reads[i].len() > 0,
        k < reads.len() ==> reads[k].len() == 0,
    ensures
        concat_bytes(emitted_payloads(reads)) == concat_bytes(reads.take(k)),
{
    lemma_chunks_in_read_order(reads, k);
    assert(emitted_payloads(reads) =~= reads.take(k));
}

/// The reading unit of work for one stream of one task: turns each non-empty
/// fixed-size read into one chunk event and stops cleanly at end of stream.
pub struct StreamReader {
    /// Identity of the task whose output is read, as text.
    pub task_id: String,
    /// Which stream this reader drains.
    pub io_type: IoType,
    /// Whether end of stream has been observed; a finished reader emits
    /// nothing further.
    pub finished: bool,
}

impl StreamReader {
    /// A fresh reader for one stream of one task.
    pub fn new(task_id: String, io_type: IoType) -> (r: StreamReader)
        ensures
            r.task_id == task_id,
            r.io_type == io_type,
            !r.finished,
    {
        StreamReader { task_id, io_type, finished: false }
    }

    /// Handles one fixed-size read: a non-empty read becomes one chunk event
    /// carrying the permissively decoded text; a zero-length read marks end
    /// of stream and stops the reader; a finished reader emits nothing.
    pub fn on_read(&mut self, data: &[u8]) -> (r: Option<TaskIoChunk>)
        ensures
            final(self).task_id == old(self).task_id,
            final(self).io_type == old(self).io_type,
            old(self).finished ==> r is None && final(self).finished,
            !old(self).finished && data@.len() == 0 ==> r is None && final(self).finished,
            !old(self).finished && data@.len() > 0 ==> {
                &&& !final(self).finished
                &&& r is Some
                &&& r->Some_0.id == old(self).task_id
                &&& r->Some_0.chunk@ == lossy_of(data@)
                &&& r->Some_0.io_type == old(self).io_type
            },
    {
        if self.finished {
            None
        } else if data.len() == 0 {
            self.finished = true;
            None
        } else {
            Some(
                TaskIoChunk {
                    id: self.task_id.clone(),
                    chunk: decode_lossy(data),
                    io_type: self.io_type,
                },
            )
        }
    }

    /// Drains a whole sequence of reads: emits one event per non-empty read
    /// in read order, stops at the first zero-length read, and emits nothing
    /// for anything after it.
    pub fn pump(&mut self, reads: &Vec<Vec<u8>>) -> (out: Vec<TaskIoChunk>)
        requires
            !old(self).finished,
        ensures
            final(self).task_id == old(self).task_id,
            final(self).io_type == old(self).io_type,
            out@.len() == emitted_payloads(reads.deep_view()).len(),
            forall|i: int| 0 <= i < out@.len() ==> {
                &&& (#[trigger] out@[i]).id == old(self).task_id
                &&& out@[i].chunk@ == lossy_of(emitted_payloads(reads.deep_view())[i])
                &&& out@[i].io_type == old(self).io_type
            },
            final(self).finished == (emitted_payloads(reads.deep_view()).len() < reads@.len()),
    {
        let ghost rs = reads.deep_view();
        let mut out: Vec<TaskIoChunk> = Vec::new();
        let mut i: usize = 0;
        let mut ended: bool = false;
        while i < reads.len() && !ended
            invariant
                0 <= i <= reads@.len(),
                rs == reads.deep_view(),
                rs.len() == reads@.len(),
                forall|j: int| 0 <= j < reads@.len() ==> #[trigger] rs[j] == reads@[j]@,
                self.task_id == old(self).task_id,
                self.io_type == old(self).io_type,
                self.finished == ended,
                !ended ==> forall|j: int| 0 <= j < i ==> #[trigger] rs[j].len() > 0,
                !ended ==> out@.len() == i,
                ended ==> i > 0 && out@.len() == i - 1 && rs[i - 1].len() == 0
                    && (forall|j: int| 0 <= j < i - 1 ==> #[trigger] rs[j].len() > 0),
                forall|j: int| 0 <= j < out@.len() ==> {
                    &&& (#[trigger] out@[j]).id == old(self).task_id
                    &&& out@[j].chunk@ == lossy_of(rs[j])
                    &&& out@[j].io_type == old(self).io_type
                },
            decreases reads@.len() - i,
        {
            let chunk = self.on_read(reads[i].as_slice());
            match chunk {
                Some(c) => {
                    out.push(c);
                },
                None => {
                    ended = true;
                },
            }
            i = i + 1;
        }
        proof {
            if ended {
                lemma_chunks_in_read_order(rs, i - 1);
            } else {
                lemma_chunks_in_read_order(rs, rs.len() as int);
            }
        }
        out
    }
}

} // verus!
