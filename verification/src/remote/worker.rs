//! Processing a file chunk by chunk for the HTTP service.
use crate::common::events::TaskEvent;
use crate::number::decimal_of;
use crate::remote::server::encrypt_chunk;
use crate::remote::state::{ChunkProcessingStatus, ChunkState};
use crate::text::{cat2, cat5};
use vstd::prelude::*;

verus! {

/// How many chunks are processed at the same time.
pub const CONCURRENCY: usize = 2;

/// One chunk to be processed.
#[derive(Debug)]
pub struct ChunkJob {
    pub id: u32,
    pub data: Vec<u8>,
}

/// What came of one read.
#[derive(Debug)]
pub enum ReadStep {
    Data(Vec<u8>),
    End,
    Failed,
}

/// A chunk that is being read: a single read may bring less than is asked for.
#[derive(Debug)]
pub struct ChunkFill {
    chunk_size: usize,
    data: Vec<u8>,
    complete: bool,
    failed: bool,
}

impl ChunkFill {
    /// How many bytes a full chunk has.
    pub closed spec fn size(self) -> nat {
        self.chunk_size as nat
    }

    /// What was read so far.
    pub closed spec fn bytes(self) -> Seq<u8> {
        self.data@
    }

    /// The chunk has been read: it is full, or the file has ended.
    pub closed spec fn ended(self) -> bool {
        self.complete
    }

    /// Reading failed.
    pub closed spec fn broken(self) -> bool {
        self.failed
    }

    pub open spec fn wf(self) -> bool {
        &&& self.bytes().len() <= self.size()
        &&& self.bytes().len() == self.size() ==> self.ended()
    }

    /// There is a chunk: something was read, and reading did not fail.
    pub open spec fn holds_chunk(self) -> bool {
        !self.broken() && self.bytes().len() > 0
    }

    /// Whether the chunk has been read.
    pub fn is_complete(&self) -> (r: bool)
        ensures
            r == self.ended(),
    {
        self.complete
    }

    /// Whether there is a chunk.
    pub fn has_chunk(&self) -> (r: bool)
        ensures
            r == self.holds_chunk(),
    {
        !self.failed && self.data.len() > 0
    }

    /// Starts to read a chunk.
    pub fn new(chunk_size: usize) -> (r: ChunkFill)
        ensures
            r.wf(),
            r.size() == chunk_size,
            r.bytes().len() == 0,
            r.ended() == (chunk_size == 0),
            !r.broken(),
    {
        ChunkFill { chunk_size, data: Vec::new(), complete: chunk_size == 0, failed: false }
    }

    /// How many bytes the next read may bring.
    pub fn room(&self) -> (r: usize)
        requires
            self.wf(),
        ensures
            r == self.size() - self.bytes().len(),
    {
        self.chunk_size - self.data.len()
    }

    /// Takes what a read brought.
    pub fn accept(&mut self, step: ReadStep)
        requires
            old(self).wf(),
            !old(self).ended(),
            step matches ReadStep::Data(d) ==> 0 < d@.len() <= old(self).size() - old(
                self,
            ).bytes().len(),
        ensures
            final(self).wf(),
            final(self).size() == old(self).size(),
            match step {
                ReadStep::Data(d) => final(self).bytes() == old(self).bytes() + d@
                    && final(self).ended() == (final(self).bytes().len() == old(self).size())
                    && final(self).broken() == old(self).broken(),
                ReadStep::End => final(self).bytes() == old(self).bytes() && final(self).ended()
                    && final(self).broken() == old(self).broken(),
                ReadStep::Failed => final(self).bytes() == old(self).bytes()
                    && final(self).ended() && final(self).broken(),
            },
    {
        match step {
            ReadStep::Data(d) => {
                let mut more = d;
                self.data.append(&mut more);
                self.complete = self.data.len() == self.chunk_size;
            },
            ReadStep::End => {
                self.complete = true;
            },
            ReadStep::Failed => {
                self.complete = true;
                self.failed = true;
            },
        }
    }

    /// The chunk that was read, if any: none when reading failed, and none behind the end
    /// of the file.
    pub fn finish(self, id: u32) -> (r: Option<ChunkJob>)
        ensures
            r is Some <==> self.holds_chunk(),
            r matches Some(job) ==> job.id == id && job.data@ == self.bytes(),
    {
        if self.failed || self.data.len() == 0 {
            None
        } else {
            Some(ChunkJob { id, data: self.data })
        }
    }
}

impl ChunkFill {
    /// What was read so far is what stands in `file` from `from` on.
    pub open spec fn is_read_from(self, file: Seq<u8>, from: nat) -> bool {
        &&& from + self.bytes().len() <= file.len()
        &&& self.bytes() == file.subrange(from as int, (from + self.bytes().len()) as int)
    }
}

/// However little a read brings, what was read stays what stands in the file, when the
/// read brought what comes next in it.
pub proof fn law_read_goes_on(
    before: ChunkFill,
    after: ChunkFill,
    brought: Seq<u8>,
    file: Seq<u8>,
    from: nat,
)
    requires
        before.is_read_from(file, from),
        after.bytes() == before.bytes() + brought,
        from + before.bytes().len() + brought.len() <= file.len(),
        brought == file.subrange(
            (from + before.bytes().len()) as int,
            (from + before.bytes().len() + brought.len()) as int,
        ),
    ensures
        after.is_read_from(file, from),
{
    assert(after.bytes() =~= file.subrange(from as int, (from + after.bytes().len()) as int));
}

/// A file that is read chunk by chunk. Its chunks are numbered from one.
#[derive(Debug)]
pub struct ChunkReader {
    chunk_size: usize,
    next_id: u32,
}

impl ChunkReader {
    /// How many bytes a full chunk has.
    pub closed spec fn size(self) -> nat {
        self.chunk_size as nat
    }

    /// The number of the next chunk.
    pub closed spec fn number(self) -> nat {
        self.next_id as nat
    }

    pub open spec fn wf(self) -> bool {
        self.number() >= 1
    }

    /// How many chunks were read.
    pub open spec fn chunks_read(self) -> nat {
        (self.number() - 1) as nat
    }

    /// The number of the next chunk.
    pub fn next_id(&self) -> (r: u32)
        ensures
            r == self.number(),
    {
        self.next_id
    }

    /// Starts to read the next chunk.
    pub fn next_fill(&self) -> (r: ChunkFill)
        ensures
            r.wf(),
            r.size() == self.size(),
            r.bytes().len() == 0,
            r.ended() == (self.size() == 0),
            !r.broken(),
    {
        ChunkFill::new(self.chunk_size)
    }

    /// How many bytes were read of a file of this length.
    pub open spec fn position(self, file_len: nat) -> nat {
        if self.chunks_read() * self.size() <= file_len {
            self.chunks_read() * self.size()
        } else {
            file_len
        }
    }

    /// Starts to read a file.
    pub fn new(chunk_size: usize) -> (r: ChunkReader)
        ensures
            r.wf(),
            r.size() == chunk_size,
            r.chunks_read() == 0,
    {
        ChunkReader { chunk_size, next_id: 1 }
    }

    /// Takes what was read of the next chunk, and numbers it. The file has ended when
    /// nothing was read, and counts as ended when reading failed.
    pub fn take(&mut self, fill: ChunkFill) -> (r: Option<ChunkJob>)
        requires
            old(self).wf(),
            fill.holds_chunk() ==> old(self).number() < u32::MAX,
        ensures
            final(self).wf(),
            final(self).size() == old(self).size(),
            r is Some <==> fill.holds_chunk(),
            r matches Some(job) ==> job.id == old(self).number() && job.data@ == fill.bytes()
                && final(self).chunks_read() == old(self).chunks_read() + 1,
            r is None ==> *final(self) == *old(self),
    {
        match fill.finish(self.next_id) {
            None => None,
            Some(job) => {
                self.next_id = self.next_id + 1;
                Some(job)
            },
        }
    }
}

/// The chunks that are read are those of the file, in their order and all of them. What
/// was read from where the last chunk ended, until it was full or the file ended, is the
/// next chunk of the file; nothing was read just when there is no next one; and the next
/// chunk is read from where this one ended.
pub proof fn law_file_is_read_in_chunks(
    before: ChunkReader,
    after: ChunkReader,
    fill: ChunkFill,
    file: Seq<u8>,
)
    requires
        before.wf(),
        before.size() > 0,
        fill.wf(),
        fill.size() == before.size(),
        fill.is_read_from(file, before.position(file.len())),
        fill.bytes().len() == fill.size() || before.position(file.len()) + fill.bytes().len()
            == file.len(),
        after.wf(),
        after.size() == before.size(),
        after.chunks_read() == before.chunks_read() + 1,
    ensures
        fill.bytes().len() > 0 <==> before.chunks_read() < crate::number::chunk_count(
            file.len(),
            before.size(),
        ),
        fill.bytes().len() > 0 ==> fill.bytes() == crate::client::file::chunk_of(
            file,
            before.size(),
            before.chunks_read(),
        ),
        after.position(file.len()) == before.position(file.len()) + fill.bytes().len(),
        fill.bytes().len() > 0 ==> (after.chunks_read() - 1) * after.size() < file.len(),
{
    let size = before.size();
    let id = before.chunks_read();
    crate::number::law_chunks_cover_file(file.len(), size, id);
    assert((id + 1) * size == id * size + size) by (nonlinear_arith);
}

/// Once a file was read to its end, as many chunks were read as it takes, which is how
/// many a task must end well with.
pub proof fn law_read_file_has_every_chunk(reader: ChunkReader, file_len: nat)
    requires
        reader.wf(),
        reader.size() > 0,
        reader.position(file_len) == file_len,
        reader.chunks_read() > 0 ==> (reader.chunks_read() - 1) * reader.size() < file_len,
    ensures
        reader.chunks_read() == crate::number::chunk_count(file_len, reader.size()),
{
    let size = reader.size();
    let n = reader.chunks_read();
    crate::number::law_chunks_cover_file(file_len, size, n);
    if n > 0 {
        crate::number::law_chunks_cover_file(file_len, size, (n - 1) as nat);
    }
}

/// How many of `states` ended well.
pub open spec fn completed_in(states: Seq<ChunkState>) -> nat
    decreases states.len(),
{
    if states.len() == 0 {
        0
    } else {
        completed_in(states.drop_last()) + if states.last().status is Completed {
            1nat
        } else {
            0nat
        }
    }
}

/// Counts the chunks that ended well, and those that failed.
pub fn tally(states: &Vec<ChunkState>) -> (r: (usize, usize))
    ensures
        r.0 == completed_in(states@),
        r.0 + r.1 == states@.len(),
{
    let mut completed: usize = 0;
    let mut failed: usize = 0;
    for i in 0..states.len()
        invariant
            completed == completed_in(states@.take(i as int)),
            completed + failed == i,
    {
        assert(states@.take(i + 1).drop_last() == states@.take(i as int));
        match &states[i].status {
            ChunkProcessingStatus::Completed => {
                completed += 1;
            },
            ChunkProcessingStatus::Failed { .. } => {
                failed += 1;
            },
        }
    }
    assert(states@.take(states@.len() as int) == states@);
    (completed, failed)
}

/// The words for a task of which not every chunk ended well.
pub open spec fn task_failed_text(total: nat, completed: nat, failed: nat) -> Seq<char> {
    "任务处理失败。总共 "@ + crate::number::decimal(total) + " 个分块，成功 "@
        + crate::number::decimal(completed) + " 个，失败 "@ + crate::number::decimal(failed)
        + " 个。"@
}

/// Ends a task from the ends of its chunks: it is completed when none failed and there
/// are as many as the file takes; otherwise it failed, and the report says so in the
/// same words as the result.
pub fn run_task(total_chunks: u64, states: &Vec<ChunkState>) -> (r: (
    TaskEvent,
    Result<(), String>,
))
    ensures
        completed_in(states@) == states@.len() && states@.len() == total_chunks <==> r.1 is Ok,
        r.1 is Ok ==> r.0 is TaskCompleted,
        r.1 matches Err(message) ==> message@ == task_failed_text(
            total_chunks as nat,
            completed_in(states@),
            (states@.len() - completed_in(states@)) as nat,
        ) && (r.0 matches TaskEvent::Error { message: m } && m@ == message@),
{
    let (completed, failed): (usize, usize) = tally(states);
    if failed == 0 && completed as u64 == total_chunks {
        return (TaskEvent::TaskCompleted, Ok(()));
    }
    let mut message = cat5(
        "任务处理失败。总共 ",
        decimal_of(total_chunks).as_str(),
        " 个分块，成功 ",
        decimal_of(completed as u64).as_str(),
        " 个，失败 ",
    );
    message.append(decimal_of(failed as u64).as_str());
    message.append(" 个。");
    (TaskEvent::Error { message: message.clone() }, Err(message))
}

/// A chunk that is encrypted and ready to be uploaded.
#[derive(Debug)]
pub struct SealedJob {
    pub key: String,
    pub data: Vec<u8>,
    pub passphrase_b64: String,
}

/// Encrypts a chunk. One that is longer than the cipher allows failed.
pub fn seal_job(job: &ChunkJob) -> (r: Result<SealedJob, ChunkState>)
    requires
        job.data@.len() + 28 <= isize::MAX,
    ensures
        r is Ok <==> job.data@.len() <= crate::outside::cipher::max_plain_len(),
        r matches Ok(s) ==> s.key@ == crate::number::decimal(job.id as nat)
            && crate::chunk::opened_with_passphrase(s.passphrase_b64@, s.data@) == Ok::<
            Seq<u8>,
            crate::chunk::OpenError,
        >(job.data@),
        r matches Err(e) ==> e.id == job.id && (e.status matches ChunkProcessingStatus::Failed {
            reason,
        } && reason@ == "加密失败: 加密失败: Error"@),
{
    match encrypt_chunk(job.data.as_slice()) {
        Ok((data, passphrase_b64)) => Ok(
            SealedJob { key: decimal_of(job.id as u64), data, passphrase_b64 },
        ),
        Err(_) => Err(
            ChunkState {
                id: job.id,
                status: ChunkProcessingStatus::Failed {
                    reason: "加密失败: 加密失败: Error".to_owned(),
                },
            },
        ),
    }
}

/// Ends the work on a chunk with the end of its upload: the client is told only of one
/// that is there.
pub fn process_single_chunk(id: u32, passphrase_b64: String, uploaded: Result<(), String>) -> (r: (
    ChunkState,
    Option<TaskEvent>,
))
    ensures
        r.0.id == id,
        match uploaded {
            Ok(_) => r.0.status is Completed && r.1 == Some(
                TaskEvent::ChunkReadyForDownload { chunk_id: id as u64, passphrase_b64 },
            ),
            Err(e) => r.1 is None && (r.0.status matches ChunkProcessingStatus::Failed { reason }
                && reason@ == "上传失败: "@ + e@),
        },
{
    match uploaded {
        Ok(_) => (
            ChunkState { id, status: ChunkProcessingStatus::Completed },
            Some(TaskEvent::ChunkReadyForDownload { chunk_id: id as u64, passphrase_b64 }),
        ),
        Err(e) => (
            ChunkState {
                id,
                status: ChunkProcessingStatus::Failed { reason: cat2("上传失败: ", e.as_str()) },
            },
            None,
        ),
    }
}

/// Each chunk that ended well counts once, and no other: all did just when there are as many
/// as there are chunks.
pub proof fn law_completed_chunks_are_counted(states: Seq<ChunkState>, state: ChunkState)
    ensures
        completed_in(states.push(state)) == completed_in(states) + if state.status is Completed {
            1nat
        } else {
            0nat
        },
        completed_in(states) <= states.len(),
        completed_in(states) == states.len() <==> forall|i: int|
            0 <= i < states.len() ==> (#[trigger] states[i]).status is Completed,
        completed_in(Seq::<ChunkState>::empty()) == 0,
    decreases states.len(),
{
    assert(states.push(state).drop_last() =~= states);
    if states.len() > 0 {
        let rest = states.drop_last();
        law_completed_chunks_are_counted(rest, state);
        if completed_in(states) == states.len() {
            assert forall|i: int| 0 <= i < states.len() implies (
            #[trigger] states[i]).status is Completed by {
                if i < rest.len() {
                    assert(rest[i] == states[i]);
                }
            }
        }
        if forall|i: int| 0 <= i < states.len() ==> (#[trigger] states[i]).status is Completed {
            assert forall|i: int| 0 <= i < rest.len() implies (
            #[trigger] rest[i]).status is Completed by {
                assert(rest[i] == states[i]);
            }
            assert(states[states.len() - 1].status is Completed);
        }
    }
}

/// The words for a task that failed say how many chunks there are, how many ended well and
/// how many did not, in this order.
pub proof fn law_failed_task_is_counted(total: nat, completed: nat, failed: nat)
    ensures
        crate::text::occurs(
            task_failed_text(total, completed, failed),
            "总共 "@ + crate::number::decimal(total) + " 个分块"@,
        ),
        crate::text::occurs(
            task_failed_text(total, completed, failed),
            "成功 "@ + crate::number::decimal(completed) + " 个"@,
        ),
        crate::text::occurs(
            task_failed_text(total, completed, failed),
            "失败 "@ + crate::number::decimal(failed) + " 个"@,
        ),
{
    let w = task_failed_text(total, completed, failed);
    reveal_strlit("任务处理失败。总共 ");
    reveal_strlit(" 个分块，成功 ");
    reveal_strlit(" 个，失败 ");
    reveal_strlit(" 个。");
    reveal_strlit("总共 ");
    reveal_strlit(" 个分块");
    reveal_strlit("成功 ");
    reveal_strlit("失败 ");
    reveal_strlit(" 个");
    let a = crate::number::decimal(total);
    let b = crate::number::decimal(completed);
    let c = crate::number::decimal(failed);
    let n = "总共 "@ + a + " 个分块"@;
    let k = "任务处理失败。总共 "@.len() - "总共 "@.len();
    assert(w.subrange(k, k + n.len()) =~= n);
    assert(crate::text::occurs_at(w, n, k));
    let n = "成功 "@ + b + " 个"@;
    let k = "任务处理失败。总共 "@.len() + a.len() + " 个分块，成功 "@.len() - "成功 "@.len();
    assert(w.subrange(k, k + n.len()) =~= n);
    assert(crate::text::occurs_at(w, n, k));
    let n = "失败 "@ + c + " 个"@;
    let k = w.len() - " 个。"@.len() - c.len() - "失败 "@.len();
    assert(w.subrange(k, k + n.len()) =~= n);
    assert(crate::text::occurs_at(w, n, k));
}

/// A chunk that was read is one whenever anything was read and reading did not fail: a read
/// that failed gives none, and nor does one behind the end.
pub proof fn law_read_chunk_is_one(fill: ChunkFill)
    ensures
        fill.bytes().len() > 0 && !fill.broken() ==> fill.holds_chunk(),
        fill.broken() || fill.bytes().len() == 0 ==> !fill.holds_chunk(),
        CONCURRENCY == 2,
{
}

/// Reading a file goes on from where it stopped: as many bytes were read as the chunks hold,
/// and never more than the file has.
pub proof fn law_position_counts_full_chunks(reader: ChunkReader, file_len: nat)
    requires
        reader.wf(),
    ensures
        reader.chunks_read() + 1 == reader.number(),
        reader.chunks_read() == 0 ==> reader.position(file_len) == 0,
        reader.position(file_len) <= file_len,
        reader.chunks_read() * reader.size() <= file_len ==> reader.position(file_len)
            == reader.chunks_read() * reader.size(),
        reader.chunks_read() * reader.size() > file_len ==> reader.position(file_len) == file_len,
{
}

}
