//! The file that is being put together, and what is remembered to go on with it later.
use crate::chunk::{open_with_passphrase, OpenError};
use crate::common::bitmap::ChunkBitmap;
use crate::number::decimal_of;
use crate::path::same_path;
use crate::text::{cat2, cat3, cat4, cat5, chars_of, same, string_of};
use vstd::arithmetic::div_mod::*;
use vstd::arithmetic::mul::*;
use vstd::prelude::*;

verus! {

/// What is remembered of a download.
pub struct Metadata {
    pub name: String,
    pub size: u64,
    pub xxh3: String,
    pub local_path: String,
    pub remote_path: String,
    pub chunk_size: u64,
    pub total_chunks: u64,
    pub chunk_bitmap: ChunkBitmap,
}

/// The name of the file in which a download is remembered.
pub fn metadata_file_name(xxh3: &str) -> (r: String)
    ensures
        r@ == xxh3@ + ".json"@,
{
    cat2(xxh3, ".json")
}

/// The name of the file that is being put together.
pub fn temp_file_name(xxh3: &str) -> (r: String)
    ensures
        r@ == xxh3@ + ".gmf"@,
{
    cat2(xxh3, ".gmf")
}

/// The last dot among the first `n` characters of a file name, other than one in front.
pub open spec fn dot_within(name: Seq<char>, n: nat) -> Option<nat>
    decreases n,
{
    if n <= 1 {
        None
    } else if name[n - 1] == '.' {
        Some((n - 1) as nat)
    } else {
        dot_within(name, (n - 1) as nat)
    }
}

/// A file name with a number, in front of the extension where there is one.
pub open spec fn numbered(name: Seq<char>, number: u64) -> Seq<char> {
    let end = match dot_within(name, name.len()) {
        Some(dot) => dot as int,
        None => name.len() as int,
    };
    name.take(end) + " ("@ + crate::number::decimal(number as nat) + ")"@ + name.skip(end)
}

/// The name for a file when there is one of its own name already.
pub fn numbered_name(name: &str, number: u64) -> (r: String)
    ensures
        r@ == numbered(name@, number),
{
    let chars = chars_of(name);
    let len: usize = chars.len();
    let mut end: usize = len;
    while end > 1 && chars[end - 1] != '.'
        invariant
            end <= len == chars@.len(),
            dot_within(chars@, len as nat) == dot_within(chars@, end as nat),
        decreases end,
    {
        end -= 1;
    }
    if end > 1 {
        end -= 1;
    } else {
        end = len;
    }
    let head = string_of(&chars, 0, end);
    let tail = string_of(&chars, end, len);
    assert(head@ == name@.take(end as int));
    assert(tail@ == name@.skip(end as int));
    cat5(head.as_str(), " (", decimal_of(number).as_str(), ")", tail.as_str())
}

/// Which download is meant.
#[derive(Debug)]
pub struct Task {
    pub name: String,
    pub size: u64,
    pub xxh3: String,
    pub local_path: String,
    pub remote_path: String,
    pub chunk_size: u64,
    pub total_chunks: u64,
}

impl Metadata {
    /// What is remembered belongs to this download. Paths count by their components.
    pub open spec fn is_of(self, task: Task) -> bool {
        &&& self.name@ == task.name@
        &&& self.size == task.size
        &&& self.xxh3@ == task.xxh3@
        &&& crate::path::is_same_path(self.local_path@, task.local_path@)
        &&& crate::path::is_same_path(self.remote_path@, task.remote_path@)
        &&& self.chunk_size == task.chunk_size
        &&& self.total_chunks == task.total_chunks
    }

    /// The bitmap has a bit for each chunk.
    pub open spec fn wf(self) -> bool {
        self.total_chunks <= self.chunk_bitmap@.len()
    }

    /// Only chunks of the file are marked, and nothing stands behind the bitmap.
    pub open spec fn is_sound(self) -> bool {
        &&& self.wf()
        &&& crate::common::bitmap::only_below(self.chunk_bitmap@, self.total_chunks as nat)
        &&& self.chunk_bitmap.is_clean()
    }

    /// Starts to remember a download of which no chunk is done.
    pub fn new(task: Task) -> (r: Metadata)
        requires
            task.total_chunks <= crate::outside::bits::max_bits(),
        ensures
            r.is_of(task),
            r.local_path == task.local_path,
            r.remote_path == task.remote_path,
            r.is_sound(),
            r.chunk_bitmap@ == Seq::new(task.total_chunks as nat, |i: int| false),
    {
        Metadata {
            name: task.name,
            size: task.size,
            xxh3: task.xxh3,
            local_path: task.local_path,
            remote_path: task.remote_path,
            chunk_size: task.chunk_size,
            total_chunks: task.total_chunks,
            chunk_bitmap: ChunkBitmap::new(task.total_chunks),
        }
    }

    /// Goes on with what was remembered, if it belongs to this download.
    pub fn load(stored: Metadata, task: &Task, metadata_path: &str) -> (r: Result<Metadata, String>)
        ensures
            r is Ok <==> stored.is_of(*task),
            r matches Ok(m) ==> m == stored,
            r matches Err(e) ==> e@ == "元数据文件 '"@ + metadata_path@
                + "' 内容与当前下载任务不匹配，可能是旧的或损坏的文件"@,
    {
        if !same(stored.name.as_str(), task.name.as_str()) || stored.size != task.size || !same(
            stored.xxh3.as_str(),
            task.xxh3.as_str(),
        ) || !same_path(stored.local_path.as_str(), task.local_path.as_str()) || !same_path(
            stored.remote_path.as_str(),
            task.remote_path.as_str(),
        ) || stored.chunk_size != task.chunk_size || stored.total_chunks != task.total_chunks {
            return Err(
                cat3(
                    "元数据文件 '",
                    metadata_path,
                    "' 内容与当前下载任务不匹配，可能是旧的或损坏的文件",
                ),
            );
        }
        Ok(stored)
    }

    /// The name of the file in which this is remembered.
    pub fn path(&self) -> (r: String)
        ensures
            r@ == self.xxh3@ + ".json"@,
    {
        metadata_file_name(self.xxh3.as_str())
    }

    /// How many chunks the file takes.
    pub fn total_chunks(&self) -> (r: u64)
        ensures
            r == self.total_chunks,
    {
        self.total_chunks
    }

    /// How many chunks are done.
    pub fn completed_chunks(&self) -> (r: u64)
        ensures
            r == crate::outside::bits::count_set(self.chunk_bitmap@),
    {
        self.chunk_bitmap.completed_count()
    }

    /// Whether a chunk is done.
    pub fn is_completed(&self, chunk_id: u64) -> (r: bool)
        requires
            chunk_id < self.chunk_bitmap@.len(),
        ensures
            r == self.chunk_bitmap@[chunk_id as int],
    {
        self.chunk_bitmap.is_completed(chunk_id)
    }
}

/// How the work on a chunk ended.
#[derive(Debug)]
pub enum ChunkResult {
    Success(u64),
    Timeout(u64),
    Failure(u64, String),
}

/// A download that is under way.
pub struct DownloadSession {
    pub metadata: Metadata,
}

/// The words for a chunk that does not open.
pub open spec fn open_failed_text(error: OpenError) -> Seq<char> {
    match error {
        OpenError::PassphraseNotBase64(fault) => "Base64 解码密钥失败: "@ + fault.message(),
        OpenError::CipherFailed => "分块数据解密失败: Error"@,
        _ => "解密任务本身发生错误，可以尝试重试"@,
    }
}

/// Opens a chunk that was fetched; one that does not open failed.
pub fn open_fetched(chunk_id: u64, passphrase_b64: &str, content: &[u8]) -> (r: Result<
    Vec<u8>,
    ChunkResult,
>)
    ensures
        match crate::chunk::opened_with_passphrase(passphrase_b64@, content@) {
            Ok(plain) => r matches Ok(data) && data@ == plain,
            Err(error) => r matches Err(ChunkResult::Failure(id, words)) && id == chunk_id
                && words@ == open_failed_text(error),
        },
{
    match open_with_passphrase(passphrase_b64, content) {
        Ok(data) => Ok(data),
        Err(error) => {
            let words = match error {
                OpenError::PassphraseNotBase64(fault) => cat2(
                    "Base64 解码密钥失败: ",
                    fault.text().as_str(),
                ),
                OpenError::CipherFailed => "分块数据解密失败: Error".to_owned(),
                _ => "解密任务本身发生错误，可以尝试重试".to_owned(),
            };
            Err(ChunkResult::Failure(chunk_id, words))
        },
    }
}

/// The words for a chunk that the file does not have.
pub open spec fn out_of_range_text(chunk_id: u64, total_chunks: u64) -> Seq<char> {
    "块索引 "@ + crate::number::decimal(chunk_id as nat) + " 超出范围 (总数: "@
        + crate::number::decimal(total_chunks as nat) + ")"@
}

/// The words for a download that is not finished.
pub open spec fn unfinished_text(completed: nat, total: nat) -> Seq<char> {
    "尝试完成下载，但还有未完成的分块: "@ + crate::number::decimal(completed) + "/"@
        + crate::number::decimal(total)
}

impl DownloadSession {
    /// Starts a download, or goes on with one that is remembered. Says how many chunks are
    /// done.
    pub fn new(stored: Option<Metadata>, task: Task, metadata_path: &str) -> (r: Result<
        (DownloadSession, u64),
        String,
    >)
        requires
            stored is None ==> task.total_chunks <= crate::outside::bits::max_bits(),
        ensures
            r is Ok <==> (stored is None || stored->0.is_of(task)),
            r matches Ok((session, done)) ==> session.metadata.is_of(task) && done
                == crate::outside::bits::count_set(session.metadata.chunk_bitmap@),
            r matches Ok((session, _)) ==> match stored {
                Some(m) => session.metadata == m,
                None => session.metadata.local_path == task.local_path
                    && session.metadata.remote_path == task.remote_path
                    && session.metadata.chunk_bitmap@ == Seq::new(
                    task.total_chunks as nat,
                    |i: int| false,
                ) && r->Ok_0.1 == 0,
            },
            (stored is None || stored->0.is_sound()) ==> (r matches Ok((session, _))
                ==> session.metadata.is_sound()),
            r matches Err(e) ==> e@ == "元数据文件 '"@ + metadata_path@
                + "' 内容与当前下载任务不匹配，可能是旧的或损坏的文件"@,
    {
        let metadata = match stored {
            Some(m) => match Metadata::load(m, &task, metadata_path) {
                Ok(loaded) => loaded,
                Err(e) => return Err(e),
            },
            None => Metadata::new(task),
        };
        let done: u64 = metadata.completed_chunks();
        proof {
            if stored is None {
                let bits = metadata.chunk_bitmap@;
                crate::common::bitmap::law_only_marks_count(bits, 0);
                assert(bits.take(0) =~= Seq::empty());
            }
        }
        Ok((DownloadSession { metadata }, done))
    }

    /// How many chunks the file takes.
    pub fn total_chunks(&self) -> (r: u64)
        ensures
            r == self.metadata.total_chunks,
    {
        self.metadata.total_chunks()
    }

    /// How many chunks are done.
    pub fn completed_chunks(&self) -> (r: u64)
        ensures
            r == crate::outside::bits::count_set(self.metadata.chunk_bitmap@),
    {
        self.metadata.completed_chunks()
    }

    /// Whether a chunk is done.
    pub fn is_completed(&self, chunk_id: u64) -> (r: bool)
        requires
            chunk_id < self.metadata.chunk_bitmap@.len(),
        ensures
            r == self.metadata.chunk_bitmap@[chunk_id as int],
    {
        self.metadata.is_completed(chunk_id)
    }

    /// Where in the file a chunk goes; one that the file does not have failed.
    pub fn write_position(&self, chunk_id: u64) -> (r: Result<u64, ChunkResult>)
        requires
            chunk_id < self.metadata.total_chunks ==> chunk_id * self.metadata.chunk_size
                <= u64::MAX,
        ensures
            r is Ok <==> chunk_id < self.metadata.total_chunks,
            r matches Ok(offset) ==> offset == chunk_id * self.metadata.chunk_size,
            r matches Err(e) ==> (e matches ChunkResult::Failure(id, words) && id == chunk_id
                && words@ == out_of_range_text(chunk_id, self.metadata.total_chunks)),
    {
        if chunk_id >= self.metadata.total_chunks {
            return Err(
                ChunkResult::Failure(
                    chunk_id,
                    cat5(
                        "块索引 ",
                        decimal_of(chunk_id).as_str(),
                        " 超出范围 (总数: ",
                        decimal_of(self.metadata.total_chunks).as_str(),
                        ")",
                    ),
                ),
            );
        }
        Ok(chunk_id * self.metadata.chunk_size)
    }

    /// Notes that a chunk was written. The bitmap must have a bit for it.
    pub fn chunk_written(&mut self, chunk_id: u64) -> (r: ChunkResult)
        requires
            chunk_id < old(self).metadata.chunk_bitmap@.len(),
        ensures
            r == ChunkResult::Success(chunk_id),
            final(self).metadata.chunk_bitmap@ == old(self).metadata.chunk_bitmap@.update(
                chunk_id as int,
                true,
            ),
            final(self).metadata == (Metadata {
                chunk_bitmap: final(self).metadata.chunk_bitmap,
                ..old(self).metadata
            }),
            old(self).metadata.wf() ==> final(self).metadata.wf(),
            old(self).metadata.is_sound() && chunk_id < old(self).metadata.total_chunks
                ==> final(self).metadata.is_sound(),
    {
        self.metadata.chunk_bitmap.mark_completed(chunk_id);
        ChunkResult::Success(chunk_id)
    }

    /// Whether the download can be finished: every chunk must be done.
    pub fn finalize(&self) -> (r: Result<(), String>)
        ensures
            r is Ok <==> crate::outside::bits::count_set(self.metadata.chunk_bitmap@)
                == self.metadata.total_chunks,
            self.metadata.is_sound() ==> (r is Ok <==> forall|id: int|
                0 <= id < self.metadata.total_chunks ==> #[trigger] self.metadata.chunk_bitmap@[id]),
            r matches Err(e) ==> e@ == unfinished_text(
                crate::outside::bits::count_set(self.metadata.chunk_bitmap@),
                self.metadata.total_chunks as nat,
            ),
    {
        let completed: u64 = self.completed_chunks();
        proof {
            if self.metadata.is_sound() {
                let bits = self.metadata.chunk_bitmap@;
                let n = self.metadata.total_chunks as int;
                let head = bits.take(n);
                crate::common::bitmap::law_only_marks_count(bits, n as nat);
                crate::common::bitmap::law_all_done_by_count(head);
                if crate::outside::bits::all_set(head) {
                    assert forall|id: int| 0 <= id < n implies #[trigger] bits[id] by {
                        assert(head[id]);
                    }
                }
            }
        }
        if completed != self.metadata.total_chunks {
            return Err(
                cat4(
                    "尝试完成下载，但还有未完成的分块: ",
                    decimal_of(completed).as_str(),
                    "/",
                    decimal_of(self.metadata.total_chunks).as_str(),
                ),
            );
        }
        Ok(())
    }
}

/// Where the work on a chunk stands.
#[derive(Debug)]
pub enum WorkState {
    /// It is being fetched.
    Fetching,
    /// It was opened to these bytes, and is being deleted from the bucket.
    Deleting(Vec<u8>),
    /// It is being written.
    Writing,
    /// What is done is being remembered.
    Saving,
    Ended,
}

/// The work on one chunk.
#[derive(Debug)]
pub struct ChunkWork {
    pub chunk_id: u64,
    pub passphrase_b64: String,
    pub state: WorkState,
}

/// What came of a step.
#[derive(Debug)]
pub enum WorkEvent {
    /// What the bucket holds for the chunk, or why that is not known.
    Fetched(Result<Vec<u8>, String>),
    Deleted(Result<(), String>),
    Written(Result<(), String>),
    Saved(Result<(), String>),
}

/// What to do next.
#[derive(Debug)]
pub enum WorkAction {
    /// Delete the chunk from the bucket.
    Delete,
    /// Write these bytes at this place of the file.
    Write { offset: u64, data: Vec<u8> },
    /// Remember what is done.
    Save,
    /// The work has ended.
    End(ChunkResult),
}

/// `r` ends the work with a failure in these words.
pub open spec fn ends_failed(r: WorkAction, chunk_id: u64, words: Seq<char>) -> bool {
    r matches WorkAction::End(ChunkResult::Failure(id, w)) && id == chunk_id && w@ == words
}

impl ChunkWork {
    /// Begins the work: the chunk is to be fetched.
    pub fn new(chunk_id: u64, passphrase_b64: String) -> (r: ChunkWork)
        ensures
            r == (ChunkWork { chunk_id, passphrase_b64, state: WorkState::Fetching }),
    {
        ChunkWork { chunk_id, passphrase_b64, state: WorkState::Fetching }
    }

    /// The event can happen.
    pub open spec fn expects(self, event: WorkEvent) -> bool {
        match self.state {
            WorkState::Fetching => event is Fetched,
            WorkState::Deleting(_) => event is Deleted,
            WorkState::Writing => event is Written,
            WorkState::Saving => event is Saved,
            WorkState::Ended => false,
        }
    }

    /// `r` is what follows an event, and `after` where the work then stands. A chunk leaves
    /// the bucket as soon as it was opened; it is marked as done only once it was written.
    pub open spec fn is_step(
        self,
        before: Metadata,
        event: WorkEvent,
        r: WorkAction,
        after: WorkState,
    ) -> bool {
        let id = self.chunk_id;
        match event {
            WorkEvent::Fetched(Err(reason)) => ends_failed(
                r,
                id,
                "分块 #"@ + crate::number::decimal(id as nat) + " 下载失败: "@ + reason@,
            ) && after is Ended,
            WorkEvent::Fetched(Ok(content)) => match crate::chunk::opened_with_passphrase(
                self.passphrase_b64@,
                content@,
            ) {
                Ok(plain) => r is Delete && (after matches WorkState::Deleting(data) && data@
                    == plain),
                Err(error) => ends_failed(r, id, open_failed_text(error)) && after is Ended,
            },
            WorkEvent::Deleted(Err(reason)) => ends_failed(r, id, reason@) && after is Ended,
            WorkEvent::Deleted(Ok(_)) => if id >= before.total_chunks {
                ends_failed(r, id, out_of_range_text(id, before.total_chunks)) && after is Ended
            } else {
                (r matches WorkAction::Write { offset, data } && offset == id * before.chunk_size
                    && self.state == WorkState::Deleting(data)) && after is Writing
            },
            WorkEvent::Written(Err(reason)) => ends_failed(r, id, reason@) && after is Ended,
            WorkEvent::Written(Ok(_)) => r is Save && after is Saving,
            WorkEvent::Saved(Err(reason)) => ends_failed(r, id, reason@) && after is Ended,
            WorkEvent::Saved(Ok(_)) => r == WorkAction::End(ChunkResult::Success(id))
                && after is Ended,
        }
    }
}

impl DownloadSession {
    /// Goes on with the work on a chunk. The bitmap must have a bit for it once it was
    /// written.
    pub fn handle_chunk(&mut self, work: &mut ChunkWork, event: WorkEvent) -> (r: WorkAction)
        requires
            old(work).expects(event),
            event is Deleted && old(work).chunk_id < old(self).metadata.total_chunks ==> old(
                work,
            ).chunk_id * old(self).metadata.chunk_size <= u64::MAX,
            event matches WorkEvent::Written(Ok(_)) ==> old(work).chunk_id < old(
                self,
            ).metadata.chunk_bitmap@.len(),
        ensures
            old(work).is_step(old(self).metadata, event, r, final(work).state),
            r matches WorkAction::Write { offset, .. } ==> offset == old(work).chunk_id * old(
                self,
            ).metadata.chunk_size,
            final(work).chunk_id == old(work).chunk_id,
            final(work).passphrase_b64 == old(work).passphrase_b64,
            final(self).metadata.chunk_bitmap@ == if r is Save {
                old(self).metadata.chunk_bitmap@.update(old(work).chunk_id as int, true)
            } else {
                old(self).metadata.chunk_bitmap@
            },
            final(self).metadata == (Metadata {
                chunk_bitmap: final(self).metadata.chunk_bitmap,
                ..old(self).metadata
            }),
            old(self).metadata.is_sound() && (event is Written ==> old(work).chunk_id < old(
                self,
            ).metadata.total_chunks) ==> final(self).metadata.is_sound(),
    {
        let id: u64 = work.chunk_id;
        match event {
            WorkEvent::Fetched(Err(reason)) => {
                work.state = WorkState::Ended;
                WorkAction::End(
                    ChunkResult::Failure(
                        id,
                        cat4(
                            "分块 #",
                            decimal_of(id).as_str(),
                            " 下载失败: ",
                            reason.as_str(),
                        ),
                    ),
                )
            },
            WorkEvent::Fetched(Ok(content)) => {
                match open_fetched(id, work.passphrase_b64.as_str(), content.as_slice()) {
                    Ok(data) => {
                        work.state = WorkState::Deleting(data);
                        WorkAction::Delete
                    },
                    Err(result) => {
                        work.state = WorkState::Ended;
                        WorkAction::End(result)
                    },
                }
            },
            WorkEvent::Deleted(Err(reason)) => {
                work.state = WorkState::Ended;
                WorkAction::End(ChunkResult::Failure(id, reason))
            },
            WorkEvent::Deleted(Ok(_)) => {
                match self.write_position(id) {
                    Err(result) => {
                        work.state = WorkState::Ended;
                        WorkAction::End(result)
                    },
                    Ok(offset) => {
                        let mut state = WorkState::Writing;
                        std::mem::swap(&mut state, &mut work.state);
                        match state {
                            WorkState::Deleting(data) => WorkAction::Write { offset, data },
                            _ => WorkAction::Save,
                        }
                    },
                }
            },
            WorkEvent::Written(Err(reason)) => {
                work.state = WorkState::Ended;
                WorkAction::End(ChunkResult::Failure(id, reason))
            },
            WorkEvent::Written(Ok(_)) => {
                let _done = self.chunk_written(id);
                work.state = WorkState::Saving;
                WorkAction::Save
            },
            WorkEvent::Saved(Err(reason)) => {
                work.state = WorkState::Ended;
                WorkAction::End(ChunkResult::Failure(id, reason))
            },
            WorkEvent::Saved(Ok(_)) => {
                work.state = WorkState::Ended;
                WorkAction::End(ChunkResult::Success(id))
            },
        }
    }
}

/// `file` after `data` was written over it from `offset` on.
pub open spec fn patched(file: Seq<u8>, offset: int, data: Seq<u8>) -> Seq<u8> {
    Seq::new(
        file.len(),
        |p: int|
            if offset <= p < offset + data.len() {
                data[p - offset]
            } else {
                file[p]
            },
    )
}

/// Chunk `id` of `file`: what stands in it from `id * chunk_size` on, `chunk_size` bytes
/// or up to its end.
pub open spec fn chunk_of(file: Seq<u8>, chunk_size: nat, id: nat) -> Seq<u8> {
    file.subrange(
        (id * chunk_size) as int,
        (id * chunk_size + crate::number::chunk_len(file.len(), chunk_size, id)) as int,
    )
}

/// The bitmap says that chunk `id` is done.
pub open spec fn is_done(bits: Seq<bool>, id: int) -> bool {
    0 <= id < bits.len() && bits[id]
}

/// `local` has the length of `file`, and holds the same bytes in each chunk that is done.
pub open spec fn agrees(local: Seq<u8>, file: Seq<u8>, chunk_size: nat, bits: Seq<bool>) -> bool {
    &&& local.len() == file.len()
    &&& forall|p: int|
        #![trigger local[p]]
        0 <= p < file.len() && is_done(bits, p / chunk_size as int) ==> local[p] == file[p]
}

proof fn lemma_chunk_of_position(chunk_size: nat, id: nat, p: int)
    requires
        chunk_size > 0,
        p >= 0,
    ensures
        p / chunk_size as int == id <==> id * chunk_size <= p < (id + 1) * chunk_size,
{
    let c = chunk_size as int;
    let q = p / c;
    lemma_fundamental_div_mod(p, c);
    lemma_mod_bound(p, c);
    lemma_mul_is_commutative(c, q);
    lemma_mul_is_distributive_add_other_way(c, q, 1);
    lemma_mul_is_distributive_add_other_way(c, id as int, 1);
    if q < id {
        lemma_mul_inequality(q + 1, id as int, c);
    } else if q > id {
        lemma_mul_inequality((id + 1) as int, q, c);
    }
}

/// Writing a chunk of the file where it belongs keeps the chunks that are done as they
/// are, and makes it one of them.
pub proof fn law_write_makes_progress(
    local: Seq<u8>,
    file: Seq<u8>,
    chunk_size: nat,
    bits: Seq<bool>,
    id: nat,
)
    requires
        chunk_size > 0,
        agrees(local, file, chunk_size, bits),
        id < crate::number::chunk_count(file.len(), chunk_size),
        id < bits.len(),
    ensures
        agrees(
            patched(local, (id * chunk_size) as int, chunk_of(file, chunk_size, id)),
            file,
            chunk_size,
            bits.update(id as int, true),
        ),
{
    let offset = (id * chunk_size) as int;
    let data = chunk_of(file, chunk_size, id);
    let after = patched(local, offset, data);
    let marked = bits.update(id as int, true);
    crate::number::law_chunks_cover_file(file.len(), chunk_size, id);
    lemma_mul_is_distributive_add_other_way(chunk_size as int, id as int, 1);
    assert forall|p: int|
        #![trigger after[p]]
        0 <= p < file.len() && is_done(marked, p / chunk_size as int) implies after[p] == file[p] by {
        lemma_chunk_of_position(chunk_size, id, p);
        if p / chunk_size as int == id {
            assert(offset <= p < offset + data.len());
            assert(data[p - offset] == file[p]);
        } else {
            assert(!(offset <= p < offset + data.len()));
            assert(after[p] == local[p]);
            assert(is_done(bits, p / chunk_size as int));
        }
    }
}

/// When every chunk is done, the file is there. The bitmap may be longer than the file
/// has chunks, with nothing marked behind them.
pub proof fn law_done_is_the_file(
    local: Seq<u8>,
    file: Seq<u8>,
    chunk_size: nat,
    bits: Seq<bool>,
)
    requires
        chunk_size > 0,
        agrees(local, file, chunk_size, bits),
        crate::number::chunk_count(file.len(), chunk_size) <= bits.len(),
        crate::common::bitmap::only_below(
            bits,
            crate::number::chunk_count(file.len(), chunk_size),
        ),
        crate::outside::bits::count_set(bits) == crate::number::chunk_count(
            file.len(),
            chunk_size,
        ),
    ensures
        local == file,
{
    let n = crate::number::chunk_count(file.len(), chunk_size);
    crate::common::bitmap::law_only_marks_count(bits, n);
    crate::common::bitmap::law_all_done_by_count(bits.take(n as int));
    assert forall|p: int| 0 <= p < file.len() implies local[p] == file[p] by {
        let id = p / chunk_size as int;
        lemma_div_pos_is_pos(p, chunk_size as int);
        lemma_chunk_of_position(chunk_size, id as nat, p);
        crate::number::law_chunks_cover_file(file.len(), chunk_size, id as nat);
        assert(bits.take(n as int)[id]);
    }
    assert(local =~= file);
}

/// A download that can be finished is the file: what was written agrees with it in the
/// chunks that are done, and as many are done as it takes.
pub proof fn law_finished_download_is_the_file(m: Metadata, local: Seq<u8>, file: Seq<u8>)
    requires
        m.is_sound(),
        m.chunk_size > 0,
        m.total_chunks == crate::number::chunk_count(file.len(), m.chunk_size as nat),
        agrees(local, file, m.chunk_size as nat, m.chunk_bitmap@),
        crate::outside::bits::count_set(m.chunk_bitmap@) == m.total_chunks,
    ensures
        local == file,
{
    law_done_is_the_file(local, file, m.chunk_size as nat, m.chunk_bitmap@);
}

/// At the start nothing is done, whatever the file holds.
pub proof fn law_nothing_done_agrees(local: Seq<u8>, file: Seq<u8>, chunk_size: nat)
    requires
        chunk_size > 0,
        local.len() == file.len(),
    ensures
        agrees(
            local,
            file,
            chunk_size,
            Seq::new(crate::number::chunk_count(file.len(), chunk_size), |i: int| false),
        ),
{
    let bits = Seq::new(crate::number::chunk_count(file.len(), chunk_size), |i: int| false);
    assert forall|p: int|
        #![trigger local[p]]
        0 <= p < file.len() && is_done(bits, p / chunk_size as int) implies local[p] == file[p] by {
        let id = p / chunk_size as int;
        lemma_div_pos_is_pos(p, chunk_size as int);
        lemma_chunk_of_position(chunk_size, id as nat, p);
        crate::number::law_chunks_cover_file(file.len(), chunk_size, id as nat);
    }
}

/// A chunk arrives as it was sent: what the remote side announced opens to the chunk of
/// the file, and writing that where it belongs makes the chunk done.
pub proof fn law_chunk_arrives(
    notice: crate::common::interface::ServerResponse,
    stored: Seq<u8>,
    local: Seq<u8>,
    file: Seq<u8>,
    chunk_size: nat,
    bits: Seq<bool>,
    id: u64,
)
    requires
        chunk_size > 0,
        agrees(local, file, chunk_size, bits),
        id < crate::number::chunk_count(file.len(), chunk_size),
        id < bits.len(),
        crate::remote::server::announces(
            notice,
            id,
            stored,
            chunk_of(file, chunk_size, id as nat),
        ),
    ensures
        crate::chunk::opened_with_passphrase(notice->passphrase_b64@, stored) is Ok,
        agrees(
            patched(
                local,
                (id * chunk_size) as int,
                crate::chunk::opened_with_passphrase(notice->passphrase_b64@, stored)->Ok_0,
            ),
            file,
            chunk_size,
            bits.update(id as int, true),
        ),
{
    law_write_makes_progress(local, file, chunk_size, bits, id as nat);
}

/// What was done before stays done when the download goes on later: the bitmap that was
/// remembered as text and read back marks the same chunks, so as many are done as
/// before, and what is there of the file agrees with it as before.
pub proof fn law_resume_keeps_progress(
    m: Metadata,
    text: Seq<char>,
    resumed: Metadata,
    local: Seq<u8>,
    file: Seq<u8>,
)
    requires
        m.is_sound(),
        m.chunk_size > 0,
        agrees(local, file, m.chunk_size as nat, m.chunk_bitmap@),
        crate::common::bitmap::is_text_of(text, m.chunk_bitmap.all_bits()),
        resumed == (Metadata { chunk_bitmap: resumed.chunk_bitmap, ..m }),
        crate::outside::encoding::base64_data(text) matches Ok(raw) && resumed.chunk_bitmap@
            == crate::common::bitmap::raw_bits(raw),
        resumed.chunk_bitmap.is_clean(),
    ensures
        resumed.is_sound(),
        crate::outside::bits::count_set(resumed.chunk_bitmap@) == crate::outside::bits::count_set(
            m.chunk_bitmap@,
        ),
        agrees(local, file, m.chunk_size as nat, resumed.chunk_bitmap@),
{
    let bits = m.chunk_bitmap@;
    let read = resumed.chunk_bitmap@;
    crate::common::bitmap::law_written_bitmap_is_read(m.chunk_bitmap, text);
    assert forall|p: int|
        #![trigger local[p]]
        0 <= p < file.len() && is_done(read, p / m.chunk_size as int) implies local[p]
        == file[p] by {
        assert(is_done(bits, p / m.chunk_size as int));
    }
}

/// `local` after the chunks `ids` of `file` were written where they belong, one after the
/// other.
pub open spec fn after_writes(
    local: Seq<u8>,
    file: Seq<u8>,
    chunk_size: nat,
    ids: Seq<nat>,
) -> Seq<u8>
    decreases ids.len(),
{
    if ids.len() == 0 {
        local
    } else {
        patched(
            after_writes(local, file, chunk_size, ids.drop_last()),
            (ids.last() * chunk_size) as int,
            chunk_of(file, chunk_size, ids.last()),
        )
    }
}

/// The bitmap after the chunks `ids` were marked.
pub open spec fn after_marks(bits: Seq<bool>, ids: Seq<nat>) -> Seq<bool>
    decreases ids.len(),
{
    if ids.len() == 0 {
        bits
    } else {
        after_marks(bits, ids.drop_last()).update(ids.last() as int, true)
    }
}

proof fn lemma_writes_agree(
    local: Seq<u8>,
    file: Seq<u8>,
    chunk_size: nat,
    bits: Seq<bool>,
    ids: Seq<nat>,
)
    requires
        chunk_size > 0,
        agrees(local, file, chunk_size, bits),
        bits.len() == crate::number::chunk_count(file.len(), chunk_size),
        forall|i: int| 0 <= i < ids.len() ==> #[trigger] ids[i] < bits.len(),
    ensures
        agrees(
            after_writes(local, file, chunk_size, ids),
            file,
            chunk_size,
            after_marks(bits, ids),
        ),
        after_marks(bits, ids).len() == bits.len(),
        forall|i: int| 0 <= i < ids.len() ==> after_marks(bits, ids)[#[trigger] ids[i] as int],
    decreases ids.len(),
{
    if ids.len() > 0 {
        let before = ids.drop_last();
        assert forall|i: int| 0 <= i < before.len() implies #[trigger] before[i] < bits.len() by {
            assert(before[i] == ids[i]);
        }
        lemma_writes_agree(local, file, chunk_size, bits, before);
        assert(ids.last() == ids[ids.len() - 1]);
        law_write_makes_progress(
            after_writes(local, file, chunk_size, before),
            file,
            chunk_size,
            after_marks(bits, before),
            ids.last(),
        );
        assert forall|i: int| 0 <= i < ids.len() implies after_marks(bits, ids)[#[trigger] ids[i] as int] by {
            if i < before.len() {
                assert(before[i] == ids[i]);
            }
        }
    }
}

/// The file comes back whatever order its chunks arrive in, and however often: once each
/// of them was written, the file that was put together is the file that was sent.
pub proof fn law_any_order_restores_file(
    local: Seq<u8>,
    file: Seq<u8>,
    chunk_size: nat,
    ids: Seq<nat>,
)
    requires
        chunk_size > 0,
        local.len() == file.len(),
        forall|i: int|
            0 <= i < ids.len() ==> #[trigger] ids[i] < crate::number::chunk_count(
                file.len(),
                chunk_size,
            ),
        forall|id: nat|
            id < crate::number::chunk_count(file.len(), chunk_size) ==> #[trigger] ids.contains(id),
    ensures
        after_writes(local, file, chunk_size, ids) == file,
{
    let n = crate::number::chunk_count(file.len(), chunk_size);
    let bits = Seq::new(n, |i: int| false);
    law_nothing_done_agrees(local, file, chunk_size);
    lemma_writes_agree(local, file, chunk_size, bits, ids);
    let marks = after_marks(bits, ids);
    assert(crate::outside::bits::all_set(marks)) by {
        assert forall|k: int| 0 <= k < marks.len() implies #[trigger] marks[k] by {
            assert(ids.contains(k as nat));
            let i = choose|i: int| 0 <= i < ids.len() && ids[i] == k as nat;
            assert(marks[ids[i] as int]);
        }
    }
    crate::common::bitmap::law_all_done_by_count(marks);
    law_done_is_the_file(after_writes(local, file, chunk_size, ids), file, chunk_size, marks);
}

proof fn lemma_new_marks(bits: Seq<bool>, ids: Seq<nat>)
    requires
        forall|i: int| 0 <= i < ids.len() ==> #[trigger] ids[i] < bits.len() && !bits[ids[i] as int],
        ids.no_duplicates(),
    ensures
        after_marks(bits, ids).len() == bits.len(),
        crate::outside::bits::count_set(after_marks(bits, ids))
            == crate::outside::bits::count_set(bits) + ids.len(),
        forall|id: int|
            0 <= id < bits.len() ==> #[trigger] after_marks(bits, ids)[id] == (bits[id]
                || ids.contains(id as nat)),
    decreases ids.len(),
{
    if ids.len() > 0 {
        let before = ids.drop_last();
        let last = ids.last();
        assert(last == ids[ids.len() - 1]);
        assert forall|i: int| 0 <= i < before.len() implies #[trigger] before[i] < bits.len()
            && !bits[before[i] as int] by {
            assert(before[i] == ids[i]);
        }
        assert forall|i: int, j: int|
            0 <= i < before.len() && 0 <= j < before.len() && i != j implies before[i]
            != before[j] by {
            assert(before[i] == ids[i] && before[j] == ids[j]);
        }
        lemma_new_marks(bits, before);
        let marked = after_marks(bits, before);
        if before.contains(last) {
            let i = choose|i: int| 0 <= i < before.len() && before[i] == last;
            assert(ids[i] == ids[ids.len() - 1]);
        }
        assert(!marked[last as int]);
        crate::common::bitmap::law_marking_counts_once(marked, last as int);
        assert forall|id: int| 0 <= id < bits.len() implies #[trigger] after_marks(bits, ids)[id]
            == (bits[id] || ids.contains(id as nat)) by {
            if before.contains(id as nat) {
                let i = choose|i: int| 0 <= i < before.len() && before[i] == id as nat;
                assert(ids[i] == id as nat);
            }
            if ids.contains(id as nat) && id != last {
                let i = choose|i: int| 0 <= i < ids.len() && ids[i] == id as nat;
                assert(before[i] == id as nat);
            }
        }
    }
}

/// A download that is started again has every chunk that was done when it began before,
/// and each that was done since, and no other: it goes on with as many as were done, and
/// as many more as were newly done. It belongs to the same downloads as before. `text` is
/// the bitmap as it was remembered when the chunks `ids` had been marked.
pub proof fn law_restart_has_every_chunk(
    before: Metadata,
    ids: Seq<nat>,
    done: Metadata,
    text: Seq<char>,
    resumed: Metadata,
)
    requires
        forall|i: int|
            0 <= i < ids.len() ==> #[trigger] ids[i] < before.total_chunks
                && !before.chunk_bitmap@[ids[i] as int],
        ids.no_duplicates(),
        before.is_sound(),
        done == (Metadata { chunk_bitmap: done.chunk_bitmap, ..before }),
        done.chunk_bitmap@ == after_marks(before.chunk_bitmap@, ids),
        done.chunk_bitmap.is_clean(),
        crate::common::bitmap::is_text_of(text, done.chunk_bitmap.all_bits()),
        resumed == (Metadata { chunk_bitmap: resumed.chunk_bitmap, ..done }),
        crate::outside::encoding::base64_data(text) matches Ok(raw) && resumed.chunk_bitmap@
            == crate::common::bitmap::raw_bits(raw),
        resumed.chunk_bitmap.is_clean(),
    ensures
        resumed.is_sound(),
        crate::outside::bits::count_set(resumed.chunk_bitmap@) == crate::outside::bits::count_set(
            before.chunk_bitmap@,
        ) + ids.len(),
        forall|id: int|
            0 <= id < before.total_chunks ==> #[trigger] resumed.chunk_bitmap@[id]
                == done.chunk_bitmap@[id],
        forall|id: int|
            0 <= id < before.total_chunks ==> #[trigger] resumed.chunk_bitmap@[id] == (
            before.chunk_bitmap@[id] || ids.contains(id as nat)),
        forall|task: Task| #[trigger] resumed.is_of(task) == before.is_of(task),
{
    let bits = before.chunk_bitmap@;
    lemma_new_marks(bits, ids);
    crate::common::bitmap::law_written_bitmap_is_read(done.chunk_bitmap, text);
    assert forall|i: int|
        before.total_chunks <= i < done.chunk_bitmap@.len() implies !#[trigger] done.chunk_bitmap@[i] by {
        if ids.contains(i as nat) {
            let k = choose|k: int| 0 <= k < ids.len() && ids[k] == i as nat;
            assert(ids[k] < before.total_chunks);
        }
        assert(!bits[i]);
    }
}

/// A chunk that was opened is written where it belongs: once it has left the bucket, the
/// bytes that are to be written at the place that is given make it one of the chunks that
/// are done, and leave the others as they are.
pub proof fn law_opened_chunk_is_written_in_place(
    work: ChunkWork,
    m: Metadata,
    r: WorkAction,
    after: WorkState,
    local: Seq<u8>,
    file: Seq<u8>,
    bits: Seq<bool>,
)
    requires
        m.chunk_size > 0,
        m.total_chunks == crate::number::chunk_count(file.len(), m.chunk_size as nat),
        work.chunk_id < m.total_chunks,
        work.chunk_id < bits.len(),
        agrees(local, file, m.chunk_size as nat, bits),
        work.state matches WorkState::Deleting(data) && data@ == chunk_of(
            file,
            m.chunk_size as nat,
            work.chunk_id as nat,
        ),
        work.is_step(m, WorkEvent::Deleted(Ok(())), r, after),
    ensures
        after is Writing,
        r is Write,
        r->offset + r->data@.len() <= file.len(),
        file.subrange(r->offset as int, r->offset + r->data@.len()) == r->data@,
        agrees(
            patched(local, r->offset as int, r->data@),
            file,
            m.chunk_size as nat,
            bits.update(work.chunk_id as int, true),
        ),
{
    law_write_makes_progress(local, file, m.chunk_size as nat, bits, work.chunk_id as nat);
    crate::number::law_chunks_cover_file(file.len(), m.chunk_size as nat, work.chunk_id as nat);
    lemma_mul_is_distributive_add_other_way(m.chunk_size as int, work.chunk_id as int, 1);
    assert(r->data@.len() == crate::number::chunk_len(
        file.len(),
        m.chunk_size as nat,
        work.chunk_id as nat,
    ));
}

/// The work on a chunk of the file runs through: a chunk that was announced, fetched as it
/// is stored, deleted, written and remembered leaves the bucket, then goes to its place,
/// then is remembered, and the work ends well with its number.
pub proof fn law_work_on_chunk_runs_through(
    notice: crate::common::interface::ServerResponse,
    content: Vec<u8>,
    works: Seq<ChunkWork>,
    actions: Seq<WorkAction>,
    m: Metadata,
    local: Seq<u8>,
    file: Seq<u8>,
    bits: Seq<bool>,
)
    requires
        works.len() == 5,
        actions.len() == 4,
        m.chunk_size > 0,
        m.total_chunks == crate::number::chunk_count(file.len(), m.chunk_size as nat),
        works[0].chunk_id < m.total_chunks,
        works[0].chunk_id < bits.len(),
        agrees(local, file, m.chunk_size as nat, bits),
        crate::remote::server::announces(
            notice,
            works[0].chunk_id,
            content@,
            chunk_of(file, m.chunk_size as nat, works[0].chunk_id as nat),
        ),
        works[0].passphrase_b64@ == notice->passphrase_b64@,
        works[0].state is Fetching,
        forall|i: int|
            0 <= i < 5 ==> (#[trigger] works[i]).chunk_id == works[0].chunk_id
                && works[i].passphrase_b64 == works[0].passphrase_b64,
        works[0].is_step(m, WorkEvent::Fetched(Ok(content)), actions[0], works[1].state),
        works[1].is_step(m, WorkEvent::Deleted(Ok(())), actions[1], works[2].state),
        works[2].is_step(m, WorkEvent::Written(Ok(())), actions[2], works[3].state),
        works[3].is_step(m, WorkEvent::Saved(Ok(())), actions[3], works[4].state),
    ensures
        actions[0] is Delete,
        actions[1] is Write,
        agrees(
            patched(local, actions[1]->offset as int, actions[1]->data@),
            file,
            m.chunk_size as nat,
            bits.update(works[0].chunk_id as int, true),
        ),
        actions[2] is Save,
        actions[3] == WorkAction::End(ChunkResult::Success(works[0].chunk_id)),
        works[0].expects(WorkEvent::Fetched(Ok(content))),
        works[1].expects(WorkEvent::Deleted(Ok(()))),
        works[2].expects(WorkEvent::Written(Ok(()))),
        works[3].expects(WorkEvent::Saved(Ok(()))),
        works[4].state is Ended,
{
    assert(works[1].chunk_id == works[0].chunk_id);
    law_opened_chunk_is_written_in_place(
        works[1],
        m,
        actions[1],
        works[2].state,
        local,
        file,
        bits,
    );
}

/// A step that failed ends the work: with a failure of this chunk whose words end with the
/// reason, and with nothing deleted, written or remembered.
pub proof fn law_failed_step_ends_work(
    work: ChunkWork,
    m: Metadata,
    event: WorkEvent,
    reason: String,
    r: WorkAction,
    after: WorkState,
)
    requires
        work.is_step(m, event, r, after),
        event == WorkEvent::Fetched(Err::<Vec<u8>, String>(reason)) || event
            == WorkEvent::Deleted(Err::<(), String>(reason)) || event == WorkEvent::Written(
            Err::<(), String>(reason),
        ) || event == WorkEvent::Saved(Err::<(), String>(reason)),
    ensures
        after is Ended,
        r matches WorkAction::End(ChunkResult::Failure(id, words)) && id == work.chunk_id
            && words@.len() >= reason@.len() && words@.skip(words@.len() - reason@.len())
            == reason@,
{
    let words = r->End_0->Failure_1;
    assert(words@.skip(words@.len() - reason@.len()) =~= reason@);
}

/// What does not open is never written: a chunk that does not open under its passphrase,
/// and one that the file does not have, end the work with a failure of this chunk.
pub proof fn law_unusable_chunk_ends_work(
    work: ChunkWork,
    m: Metadata,
    event: WorkEvent,
    r: WorkAction,
    after: WorkState,
)
    requires
        work.is_step(m, event, r, after),
        event matches WorkEvent::Fetched(Ok(content)) ==> crate::chunk::opened_with_passphrase(
            work.passphrase_b64@,
            content@,
        ) is Err,
        event matches WorkEvent::Deleted(Ok(_)) ==> work.chunk_id >= m.total_chunks,
        event is Fetched || event is Deleted,
    ensures
        after is Ended,
        r matches WorkAction::End(ChunkResult::Failure(id, _)) && id == work.chunk_id,
{
}

/// Nothing is done before its turn: a chunk is deleted only once it was opened, written
/// only once it was deleted, marked as done only once it was written, and done only once
/// that is remembered. The work ends just when there is nothing more to do.
pub proof fn law_work_keeps_its_order(
    work: ChunkWork,
    m: Metadata,
    event: WorkEvent,
    r: WorkAction,
    after: WorkState,
)
    requires
        work.expects(event),
        work.is_step(m, event, r, after),
    ensures
        r is Delete <==> after is Deleting,
        r is Write <==> after is Writing,
        r is Save <==> after is Saving,
        r is End <==> after is Ended,
        r is Delete ==> work.state is Fetching && (event matches WorkEvent::Fetched(Ok(content))
            && crate::chunk::opened_with_passphrase(work.passphrase_b64@, content@) == Ok::<
            Seq<u8>,
            OpenError,
        >(after->Deleting_0@)),
        r is Write ==> (event matches WorkEvent::Deleted(Ok(_))) && work.state
            == WorkState::Deleting(r->data),
        r is Save ==> work.state is Writing && (event matches WorkEvent::Written(Ok(_))),
        r matches WorkAction::End(ChunkResult::Success(id)) ==> id == work.chunk_id
            && work.state is Saving && (event matches WorkEvent::Saved(Ok(_))),
        !(r matches WorkAction::End(ChunkResult::Timeout(_))),
{
}

/// What is remembered belongs to one download only: to two tasks only when they are for
/// the same file, cut in the same way, from and to the same paths.
pub proof fn law_remembered_for_one_download(m: Metadata, a: Task, b: Task)
    requires
        m.is_of(a),
        m.is_of(b),
    ensures
        a.name@ == b.name@,
        a.size == b.size,
        a.xxh3@ == b.xxh3@,
        a.chunk_size == b.chunk_size,
        a.total_chunks == b.total_chunks,
        crate::path::is_same_path(a.local_path@, b.local_path@),
        crate::path::is_same_path(a.remote_path@, b.remote_path@),
{
}

/// A download goes on with what was remembered of it, whatever the download is: where every
/// part of a task is what is remembered, it belongs to the task.
pub proof fn law_same_download_goes_on(m: Metadata, task: Task)
    requires
        m.name@ == task.name@,
        m.size == task.size,
        m.xxh3@ == task.xxh3@,
        m.local_path@ == task.local_path@,
        m.remote_path@ == task.remote_path@,
        m.chunk_size == task.chunk_size,
        m.total_chunks == task.total_chunks,
    ensures
        m.is_of(task),
{
}

proof fn lemma_dot_within(name: Seq<char>, n: nat)
    requires
        n <= name.len(),
    ensures
        dot_within(name, n) matches Some(d) ==> 0 < d < n && name[d as int] == '.' && forall|i: int|
            d < i < n ==> name[i] != '.',
        dot_within(name, n) is None ==> forall|i: int| 0 < i < n ==> name[i] != '.',
    decreases n,
{
    if n > 1 && name[n - 1] != '.' {
        lemma_dot_within(name, (n - 1) as nat);
    }
}

/// A file that has to make way for one of its own name keeps its extension: the number goes
/// in front of the last dot, unless that is the first character, and behind the whole name
/// where there is none. Without the number, the name is what it was.
pub proof fn law_numbered_keeps_extension(name: Seq<char>, number: u64) -> (end: int)
    ensures
        0 <= end <= name.len(),
        numbered(name, number) == name.take(end) + " ("@ + crate::number::decimal(number as nat)
            + ")"@ + name.skip(end),
        end < name.len() ==> end > 0 && name[end] == '.',
        forall|i: int| (if end < name.len() { end } else { 0 }) < i < name.len() ==> name[i] != '.',
{
    lemma_dot_within(name, name.len());
    match dot_within(name, name.len()) {
        Some(dot) => dot as int,
        None => name.len() as int,
    }
}

/// Different numbers give different names, and none of them is the name itself.
pub proof fn law_numbered_differ(name: Seq<char>, a: u64, b: u64)
    requires
        a != b,
    ensures
        numbered(name, a) != numbered(name, b),
        numbered(name, a) != name,
{
    reveal_strlit(" (");
    reveal_strlit(")");
    let end = law_numbered_keeps_extension(name, a);
    let end_b = law_numbered_keeps_extension(name, b);
    let x = numbered(name, a);
    let y = numbered(name, b);
    let da = crate::number::decimal(a as nat);
    let db = crate::number::decimal(b as nat);
    assert(end == end_b);
    assert(x.len() == name.len() + 3 + da.len());
    if x == y {
        assert(da.len() == db.len());
        assert(da =~= x.subrange(end + 2, end + 2 + da.len()));
        assert(db =~= y.subrange(end + 2, end + 2 + da.len()));
        crate::number::law_decimal_injective(a as nat, b as nat);
    }
}

/// The words about a chunk say what is wrong with it: which it is and how many there are
/// where the file does not have it, and the fault of a passphrase that is not Base64.
pub proof fn law_failure_words_say_what_is_wrong(
    chunk_id: u64,
    total_chunks: u64,
    fault: crate::outside::encoding::Base64Fault,
)
    ensures
        crate::text::occurs(
            out_of_range_text(chunk_id, total_chunks),
            " "@ + crate::number::decimal(chunk_id as nat) + " "@,
        ),
        crate::text::closes_with(
            out_of_range_text(chunk_id, total_chunks),
            " "@ + crate::number::decimal(total_chunks as nat) + ")"@,
        ),
        crate::text::closes_with(
            unfinished_text(chunk_id as nat, total_chunks as nat),
            " "@ + crate::number::decimal(chunk_id as nat) + "/"@ + crate::number::decimal(
                total_chunks as nat,
            ),
        ),
        crate::text::closes_with(
            open_failed_text(OpenError::PassphraseNotBase64(fault)),
            fault.message(),
        ),
{
    reveal_strlit(" ");
    reveal_strlit("块索引 ");
    reveal_strlit(" 超出范围 (总数: ");
    reveal_strlit("尝试完成下载，但还有未完成的分块: ");
    let w = out_of_range_text(chunk_id, total_chunks);
    let a = crate::number::decimal(chunk_id as nat);
    let b = crate::number::decimal(total_chunks as nat);
    let n = " "@ + a + " "@;
    let k = "块索引 "@.len() - 1;
    assert(w.subrange(k, k + n.len()) =~= n);
    assert(crate::text::occurs_at(w, n, k));
    let t = " "@ + b + ")"@;
    let head = w.take(w.len() - t.len());
    assert(w =~= head + t);
    crate::text::law_closes_with_its_end(head, t);
    let v = unfinished_text(chunk_id as nat, total_chunks as nat);
    let u = " "@ + a + "/"@ + b;
    let start = v.take(v.len() - u.len());
    assert(v =~= start + u);
    crate::text::law_closes_with_its_end(start, u);
    crate::text::law_closes_with_its_end("Base64 解码密钥失败: "@, fault.message());
}

}
