//! Looking at a file, and uploading its chunks a few at a time.
use crate::chunk::{encrypt_chunk_with_nonce, SealError};
use crate::common::bitmap::ChunkBitmap;
use crate::common::interface::{ServerResponse, SetupResponse, StartResponse};
use crate::number::{count_chunks, decimal_of};
use crate::outside::cipher::random_bytes;
use crate::outside::encoding::base64_encode;
use crate::outside::shell::expand_tilde;
use crate::path::file_name_of;
use crate::remote::metadata::{
    global_chunk_bitmap, global_metadata, init_chunk_bitmap, init_metadata, Memory, TaskMetadata,
};
use crate::text::{cat2, cat3, cat4, join_with};
use vstd::prelude::*;

verus! {

/// What the file system says about a path.
#[derive(Debug)]
pub enum FileProbe {
    /// There is nothing.
    NotFound,
    /// It could not be looked at, for this reason.
    Failed(String),
    /// There is a directory.
    Directory,
    /// There is a file, with its size and the XXH3 of its content.
    File { size: u64, xxh3: String },
}

/// The file that a request is about.
#[derive(Debug)]
pub struct SetupTarget {
    pub file_path: String,
    pub file_name: String,
}

/// `r` is the file that a request with this path and chunk size is about, or the answer
/// to a request that is about none; `expanded` is the path with the home directory put
/// in.
pub open spec fn is_target(
    r: Result<SetupTarget, ServerResponse>,
    path: Seq<char>,
    expanded: Seq<char>,
    chunk_size: u64,
) -> bool {
    if chunk_size == 0 {
        r matches Err(e) && crate::common::interface::is_error(e, "chunk_size 不能为 0"@)
    } else {
        match crate::path::file_name(expanded) {
            None => r matches Err(e) && crate::common::interface::is_error(
                e,
                "无法从路径 '"@ + path + "' 中提取有效的文件名"@,
            ),
            Some(name) => r matches Ok(t) && t.file_path@ == expanded && t.file_name@ == name,
        }
    }
}

/// Finds the file that a request is about when its path expands to `expanded`.
pub fn target_of(path: &str, expanded: &str, chunk_size: u64) -> (r: Result<
    SetupTarget,
    ServerResponse,
>)
    ensures
        is_target(r, path@, expanded@, chunk_size),
{
    if chunk_size == 0 {
        return Err(ServerResponse::Error("chunk_size 不能为 0".to_owned()));
    }
    match file_name_of(expanded) {
        None => Err(
            ServerResponse::Error(cat3("无法从路径 '", path, "' 中提取有效的文件名")),
        ),
        Some(file_name) => Ok(SetupTarget { file_path: expanded.to_owned(), file_name }),
    }
}

/// `expanded` is a path with the home directory put in for its tilde. A tilde before a
/// backslash stays on some systems.
pub open spec fn is_expanded(path: Seq<char>, home: Option<String>, expanded: Seq<char>) -> bool {
    if crate::outside::shell::has_backslash_tilde(path) {
        expanded == path || (home is Some && expanded == home->0@ + path.drop_first())
    } else {
        expanded == crate::outside::shell::expanded_path(path, home)
    }
}

/// Finds the file that a request is about; `home` is the home directory, where there is
/// one.
pub fn setup_target(path: &str, home: &Option<String>, chunk_size: u64) -> (r: Result<
    SetupTarget,
    ServerResponse,
>)
    ensures
        exists|expanded: Seq<char>| #[trigger]
            is_expanded(path@, *home, expanded) && is_target(r, path@, expanded, chunk_size),
        !crate::outside::shell::has_backslash_tilde(path@) ==> is_target(
            r,
            path@,
            crate::outside::shell::expanded_path(path@, *home),
            chunk_size,
        ),
{
    let expanded = expand_tilde(path, home);
    assert(is_expanded(path@, *home, expanded@));
    target_of(path, expanded.as_str(), chunk_size)
}

/// `r` is the answer about a file of which `probe` is known.
pub open spec fn is_file_reply(
    r: ServerResponse,
    file_path: Seq<char>,
    file_name: Seq<char>,
    chunk_size: u64,
    probe: FileProbe,
) -> bool {
    match probe {
        FileProbe::NotFound => crate::common::interface::is_error(
            r,
            "文件未找到: '"@ + file_path + "'"@,
        ),
        FileProbe::Failed(reason) => crate::common::interface::is_error(
            r,
            "无法访问文件 '"@ + file_path + "': "@ + reason@,
        ),
        FileProbe::Directory => crate::common::interface::is_error(
            r,
            "路径指向一个目录，而不是文件: '"@ + file_path + "'"@,
        ),
        FileProbe::File { size, xxh3 } => r matches ServerResponse::SetupSuccess(s)
            && s.file_name@ == file_name && s.file_size == size && s.total_chunks
            == crate::number::chunk_count(size as nat, chunk_size as nat) && s.xxh3@ == xxh3@,
    }
}

/// The program remembers just the file that it answered about, and nothing about one
/// that it could not send.
pub open spec fn remembers_file(
    before: Memory,
    after: Memory,
    file_path: Seq<char>,
    chunk_size: u64,
    probe: FileProbe,
) -> bool {
    match probe {
        FileProbe::File { size, .. } => {
            &&& after.metadata matches Some(m)
            &&& m.path_text() == file_path
            &&& m.size() == size
            &&& m.chunk() == chunk_size
            &&& m.total() == crate::number::chunk_count(size as nat, chunk_size as nat)
            &&& after.chunk_bitmap == before.chunk_bitmap
        },
        _ => after == before,
    }
}

/// Answers about a file of which `probe` is known, and remembers it. Only one file can
/// be set up.
pub fn finish_setup(
    memory: &mut Memory,
    target: SetupTarget,
    chunk_size: u64,
    probe: FileProbe,
) -> (r: ServerResponse)
    requires
        chunk_size > 0,
        probe is File ==> old(memory).metadata is None,
    ensures
        is_file_reply(r, target.file_path@, target.file_name@, chunk_size, probe),
        remembers_file(*old(memory), *final(memory), target.file_path@, chunk_size, probe),
{
    match probe {
        FileProbe::NotFound => ServerResponse::Error(
            cat3("文件未找到: '", target.file_path.as_str(), "'"),
        ),
        FileProbe::Failed(reason) => {
            let mut out = cat3("无法访问文件 '", target.file_path.as_str(), "': ");
            out.append(reason.as_str());
            ServerResponse::Error(out)
        },
        FileProbe::Directory => ServerResponse::Error(
            cat3("路径指向一个目录，而不是文件: '", target.file_path.as_str(), "'"),
        ),
        FileProbe::File { size, xxh3 } => {
            let total_chunks: u64 = count_chunks(size, chunk_size);
            init_metadata(
                memory,
                TaskMetadata::new(target.file_path, size, chunk_size, total_chunks),
            );
            ServerResponse::SetupSuccess(
                SetupResponse { file_name: target.file_name, file_size: size, total_chunks, xxh3 },
            )
        },
    }
}

/// `r` is the answer to a request to look at a file.
pub open spec fn is_setup_reply(
    r: ServerResponse,
    path: Seq<char>,
    expanded: Seq<char>,
    chunk_size: u64,
    probe: FileProbe,
) -> bool {
    if chunk_size == 0 {
        crate::common::interface::is_error(r, "chunk_size 不能为 0"@)
    } else {
        match crate::path::file_name(expanded) {
            None => crate::common::interface::is_error(
                r,
                "无法从路径 '"@ + path + "' 中提取有效的文件名"@,
            ),
            Some(name) => is_file_reply(r, expanded, name, chunk_size, probe),
        }
    }
}

/// Answers a request to look at a file: `expanded` is its path with the home directory
/// put in, and `probe` what the file system says about that path.
pub fn setup(
    memory: &mut Memory,
    path: &str,
    expanded: &str,
    chunk_size: u64,
    probe: FileProbe,
) -> (r: ServerResponse)
    requires
        chunk_size > 0 && crate::path::file_name(expanded@) is Some && probe is File ==> old(
            memory,
        ).metadata is None,
    ensures
        is_setup_reply(r, path@, expanded@, chunk_size, probe),
        chunk_size > 0 && crate::path::file_name(expanded@) is Some ==> remembers_file(
            *old(memory),
            *final(memory),
            expanded@,
            chunk_size,
            probe,
        ),
        chunk_size == 0 || crate::path::file_name(expanded@) is None ==> *final(memory) == *old(
            memory,
        ),
{
    match target_of(path, expanded, chunk_size) {
        Err(e) => e,
        Ok(target) => finish_setup(memory, target, chunk_size, probe),
    }
}

/// Bytes of the file that are still to be sent when `done` chunks of it are.
pub open spec fn remaining(file_size: nat, chunk_size: nat, done: nat) -> nat {
    if done * chunk_size <= file_size {
        (file_size - done * chunk_size) as nat
    } else {
        0
    }
}

/// The bitmap that the client sent, cut to the chunks that the file has: words hold
/// more bits than there may be chunks.
pub open spec fn fitted(bits: Seq<bool>, total_chunks: u64) -> Seq<bool> {
    if total_chunks < bits.len() {
        bits.take(total_chunks as int)
    } else {
        bits
    }
}

/// Answers a request to send the chunks that are not done, and remembers which are.
/// The file must have been set up, and sending can start only once.
pub fn accept_start(memory: &mut Memory, chunk_bitmap: ChunkBitmap) -> (r: ServerResponse)
    requires
        old(memory).metadata is Some,
        old(memory).chunk_bitmap is None,
        crate::outside::bits::count_set(
            fitted(chunk_bitmap@, old(memory).metadata->0.total()),
        ) * old(memory).metadata->0.chunk() <= u64::MAX,
    ensures
        final(memory).metadata == old(memory).metadata,
        final(memory).chunk_bitmap is Some,
        final(memory).chunk_bitmap->0@ == fitted(
            chunk_bitmap@,
            old(memory).metadata->0.total(),
        ),
        r == ServerResponse::StartSuccess(
            StartResponse {
                remaining_size: remaining(
                    old(memory).metadata->0.size() as nat,
                    old(memory).metadata->0.chunk() as nat,
                    crate::outside::bits::count_set(final(memory).chunk_bitmap->0@),
                ) as u64,
            },
        ),
        ({
            let sent = crate::outside::bits::count_set(final(memory).chunk_bitmap->0@) * old(
                memory,
            ).metadata->0.chunk();
            let size = old(memory).metadata->0.size();
            &&& r is StartSuccess
            &&& sent <= size ==> r->StartSuccess_0.remaining_size + sent == size
            &&& sent >= size ==> r->StartSuccess_0.remaining_size == 0
        }),
{
    let mut bitmap = chunk_bitmap;
    let (total_chunks, chunk_size, file_size): (u64, u64, u64) = {
        let metadata = global_metadata(memory);
        (metadata.total_chunks(), metadata.chunk_size(), metadata.file_size())
    };
    bitmap.truncate(total_chunks);
    let sent: u64 = bitmap.completed_count() * chunk_size;
    let remaining_size: u64 = if sent <= file_size {
        file_size - sent
    } else {
        0
    };
    init_chunk_bitmap(memory, bitmap);
    ServerResponse::StartSuccess(StartResponse { remaining_size })
}

/// A request to send never counts too many bytes as sent: it fits when the file was set
/// up with the number of chunks that it takes, and its size and one chunk more fit.
pub proof fn law_start_fits(bits: Seq<bool>, file_size: u64, chunk_size: u64)
    requires
        chunk_size > 0,
        bits.len() <= crate::number::chunk_count(file_size as nat, chunk_size as nat),
        file_size + chunk_size <= u64::MAX,
    ensures
        crate::outside::bits::count_set(bits) * chunk_size <= u64::MAX,
        crate::outside::bits::all_set(bits) && bits.len() == crate::number::chunk_count(
            file_size as nat,
            chunk_size as nat,
        ) ==> remaining(
            file_size as nat,
            chunk_size as nat,
            crate::outside::bits::count_set(bits),
        ) == 0,
{
    let n = crate::number::chunk_count(file_size as nat, chunk_size as nat);
    crate::number::law_chunks_cover_file(file_size as nat, chunk_size as nat, n);
    crate::common::bitmap::law_counts_add_up(bits);
    crate::common::bitmap::law_all_done_by_count(bits);
    let c = crate::outside::bits::count_set(bits);
    assert(c * chunk_size <= n * chunk_size) by (nonlinear_arith)
        requires
            c <= n,
            chunk_size > 0,
    ;
}

/// How many chunks are uploaded at the same time, at most.
pub const MAX_CONCURRENCY: usize = 5;

/// Which chunks are being uploaded: the first `started` of `pending` were started, and
/// `in_flight` of them have not ended.
#[derive(Debug)]
pub struct Scheduler {
    pending: Vec<u64>,
    started: usize,
    in_flight: usize,
    /// Whether an upload ended after the program was told to stop.
    stopped: bool,
}

impl Scheduler {
    /// The chunks that are to be uploaded.
    pub closed spec fn waiting(self) -> Seq<u64> {
        self.pending@
    }

    /// How many of them were started.
    pub closed spec fn begun(self) -> nat {
        self.started as nat
    }

    /// How many uploads run.
    pub closed spec fn running(self) -> nat {
        self.in_flight as nat
    }

    /// An upload ended after the program was told to stop.
    pub closed spec fn is_stopped(self) -> bool {
        self.stopped
    }

    /// Never more than the limit run; and unless the program was told to stop, fewer run
    /// only when there is nothing left to start.
    pub open spec fn wf(self) -> bool {
        &&& self.begun() <= self.waiting().len()
        &&& self.running() <= self.begun()
        &&& self.running() <= MAX_CONCURRENCY
        &&& !self.is_stopped() && self.begun() < self.waiting().len() ==> self.running()
            == MAX_CONCURRENCY
    }

    /// The chunks that were started so far.
    pub open spec fn handed_out(self) -> Seq<u64> {
        self.waiting().take(self.begun() as int)
    }

    /// Starts as many of `pending` as may run at the same time.
    pub fn begin(pending: Vec<u64>) -> (r: (Scheduler, Vec<u64>))
        ensures
            r.0.wf(),
            r.0.waiting() == pending@,
            !r.0.is_stopped(),
            r.0.running() == r.0.begun(),
            r.0.begun() == if pending@.len() < MAX_CONCURRENCY {
                pending@.len() as int
            } else {
                MAX_CONCURRENCY as int
            },
            r.1@ == r.0.handed_out(),
    {
        let mut first: Vec<u64> = Vec::new();
        let mut in_flight: usize = 0;
        while in_flight < MAX_CONCURRENCY && in_flight < pending.len()
            invariant
                in_flight <= MAX_CONCURRENCY,
                in_flight <= pending@.len(),
                first@ == pending@.take(in_flight as int),
            decreases MAX_CONCURRENCY - in_flight,
        {
            first.push(pending[in_flight]);
            assert(pending@.take(in_flight + 1) == pending@.take(in_flight as int).push(
                pending@[in_flight as int],
            ));
            in_flight += 1;
        }
        (Scheduler { pending, started: in_flight, in_flight, stopped: false }, first)
    }

    /// One upload ended. The next chunk is started in its place, unless the program was
    /// told to stop or there is none.
    pub fn joined(&mut self, cancelled: bool) -> (r: Option<u64>)
        requires
            old(self).wf(),
            old(self).running() > 0,
        ensures
            final(self).wf(),
            final(self).waiting() == old(self).waiting(),
            final(self).is_stopped() == (old(self).is_stopped() || cancelled),
            match r {
                Some(id) => !cancelled && old(self).begun() < old(self).waiting().len() && id
                    == old(self).waiting()[old(self).begun() as int] && final(self).begun() == old(
                    self,
                ).begun() + 1 && final(self).running() == old(self).running(),
                None => (cancelled || old(self).begun() == old(self).waiting().len())
                    && final(self).begun() == old(self).begun() && final(self).running() == old(
                    self,
                ).running() - 1,
            },
            final(self).handed_out() == match r {
                Some(id) => old(self).handed_out().push(id),
                None => old(self).handed_out(),
            },
    {
        if cancelled {
            self.stopped = true;
        }
        if !cancelled && self.started < self.pending.len() {
            let id: u64 = self.pending[self.started];
            proof {
                let p = self.pending@;
                let n = self.started as int;
                assert(p.take(n + 1) == p.take(n).push(p[n]));
            }
            self.started = self.started + 1;
            Some(id)
        } else {
            self.in_flight = self.in_flight - 1;
            None
        }
    }

    /// How many chunks were started.
    pub fn started(&self) -> (r: usize)
        ensures
            r == self.begun(),
    {
        self.started
    }

    /// How many uploads run.
    pub fn in_flight(&self) -> (r: usize)
        ensures
            r == self.running(),
    {
        self.in_flight
    }

    /// Whether every upload that was started has ended.
    pub fn is_done(&self) -> (r: bool)
        ensures
            r == (self.running() == 0),
    {
        self.in_flight == 0
    }

    /// What the client is told at the end: that everything was uploaded, unless the
    /// program was told to stop.
    pub fn farewell(&self, cancelled: bool) -> (r: Option<ServerResponse>)
        ensures
            r == if cancelled {
                None::<ServerResponse>
            } else {
                Some(ServerResponse::UploadCompleted)
            },
    {
        if cancelled {
            None
        } else {
            Some(ServerResponse::UploadCompleted)
        }
    }
}

/// Starts the upload of the chunks that are not done yet, in their order.
pub fn start(memory: &Memory) -> (r: (Scheduler, Vec<u64>))
    requires
        memory.metadata is Some,
        memory.chunk_bitmap is Some,
    ensures
        r.0.wf(),
        crate::outside::bits::lists_positions(
            r.0.waiting(),
            memory.chunk_bitmap->0@,
            false,
        ),
        !r.0.is_stopped(),
        r.0.running() == r.0.begun(),
        r.0.begun() == if r.0.waiting().len() < MAX_CONCURRENCY {
            r.0.waiting().len() as int
        } else {
            MAX_CONCURRENCY as int
        },
        r.1@ == r.0.handed_out(),
{
    let pending = global_chunk_bitmap(memory).pending_ids();
    Scheduler::begin(pending)
}

/// When the last upload has ended and the program was never told to stop, every chunk
/// that was not done was started, each once and in order.
pub proof fn law_everything_uploaded(s: Scheduler)
    requires
        s.wf(),
        s.running() == 0,
        !s.is_stopped(),
    ensures
        s.handed_out() == s.waiting(),
{
    assert(s.waiting().take(s.waiting().len() as int) == s.waiting());
}

/// A chunk that was started is one of the file that was not done, and none is started
/// twice.
pub proof fn law_started_once(s: Scheduler, bits: Seq<bool>, i: int)
    requires
        s.wf(),
        crate::outside::bits::lists_positions(s.waiting(), bits, false),
        0 <= i < s.handed_out().len(),
    ensures
        s.handed_out()[i] < bits.len(),
        !bits[s.handed_out()[i] as int],
        forall|j: int|
            0 <= j < s.handed_out().len() && j != i ==> #[trigger] s.handed_out()[j]
                != s.handed_out()[i],
{
    assert(s.waiting()[i] < bits.len());
    assert forall|j: int| 0 <= j < s.handed_out().len() && j != i implies #[trigger] s.handed_out()[j]
        != s.handed_out()[i] by {
        if j < i {
            assert(s.waiting()[j] < s.waiting()[i]);
        } else {
            assert(s.waiting()[i] < s.waiting()[j]);
        }
    }
}

/// Every chunk that is not done is uploaded: when the last upload has ended and the
/// program was never told to stop, each of them was started.
pub proof fn law_no_chunk_left_out(s: Scheduler, bits: Seq<bool>, id: int)
    requires
        s.wf(),
        s.running() == 0,
        !s.is_stopped(),
        crate::outside::bits::lists_positions(s.waiting(), bits, false),
        0 <= id < bits.len(),
        !bits[id],
    ensures
        exists|i: int| 0 <= i < s.handed_out().len() && #[trigger] s.handed_out()[i] == id,
{
    law_everything_uploaded(s);
    assert(bits[id] == false);
    let i = choose|i: int| 0 <= i < s.waiting().len() && s.waiting()[i] == id;
    assert(s.handed_out()[i] == id);
}

/// `parts` are the links of an error, from the outermost to its root.
pub open spec fn start_failed_text(parts: Seq<Seq<char>>) -> Seq<char> {
    "start 上传任务执行失败:\n"@ + crate::text::joined_with(parts, "\n  caused by: "@)
}

/// What the client is told when the upload failed, from the links of the error.
pub fn start_failed(chain: &Vec<String>) -> (r: ServerResponse)
    ensures
        crate::common::interface::is_error(r, start_failed_text(crate::text::views(chain@))),
{
    ServerResponse::Error(
        cat2(
            "start 上传任务执行失败:\n",
            join_with(chain, "\n  caused by: ").as_str(),
        ),
    )
}

/// Why a chunk was not uploaded.
#[derive(Debug, Clone, Copy, PartialEq, Eq, Structural)]
pub enum UploadError {
    /// The file ends before the chunk.
    Empty { chunk_id: u64 },
    /// The chunk could not be encrypted.
    Seal { chunk_id: u64 },
}

impl UploadError {
    /// The error in words.
    pub open spec fn message(self) -> Seq<char> {
        match self {
            UploadError::Empty { chunk_id } => "指定的块号 "@ + crate::number::decimal(
                chunk_id as nat,
            ) + " 超出文件范围，没有可读取的数据。"@,
            UploadError::Seal { chunk_id } => "分块 #"@ + crate::number::decimal(
                chunk_id as nat,
            ) + " 加密失败"@,
        }
    }

    /// Puts the error in words.
    pub fn text(&self) -> (r: String)
        ensures
            r@ == self.message(),
    {
        match self {
            UploadError::Empty { chunk_id } => cat3(
                "指定的块号 ",
                decimal_of(*chunk_id).as_str(),
                " 超出文件范围，没有可读取的数据。",
            ),
            UploadError::Seal { chunk_id } => cat3(
                "分块 #",
                decimal_of(*chunk_id).as_str(),
                " 加密失败",
            ),
        }
    }
}

/// Where chunk `chunk_id` starts in the file.
pub fn chunk_offset(chunk_id: u64, chunk_size: u64) -> (r: u64)
    requires
        chunk_id * chunk_size <= u64::MAX,
    ensures
        r == chunk_id * chunk_size,
{
    chunk_id * chunk_size
}

/// Encrypts a chunk under a given key and nonce, and gives the key in Base64. The chunk
/// opens again with what is given.
pub fn encrypt_chunk_under(key: &[u8; 32], nonce: &[u8; 12], input: &[u8]) -> (r: Result<
    (Vec<u8>, String),
    SealError,
>)
    requires
        input@.len() + 28 <= isize::MAX,
    ensures
        r is Ok <==> input@.len() <= crate::outside::cipher::max_plain_len(),
        r matches Ok((data, pass)) ==> data@ == crate::chunk::sealed_chunk(
            key@,
            nonce@,
            input@,
        ) && pass@ == crate::outside::encoding::base64_text(key@)
            && crate::chunk::opened_with_passphrase(pass@, data@) == Ok::<
            Seq<u8>,
            crate::chunk::OpenError,
        >(input@),
        r matches Err(e) ==> e.len == input@.len(),
{
    match encrypt_chunk_with_nonce(key, nonce, input) {
        Err(e) => Err(e),
        Ok(data) => Ok((data, base64_encode(key.as_slice()))),
    }
}

/// Encrypts a chunk under a fresh key and nonce, and gives the key in Base64.
pub fn encrypt_chunk(input: &[u8]) -> (r: Result<(Vec<u8>, String), SealError>)
    requires
        input@.len() + 28 <= isize::MAX,
    ensures
        r is Ok <==> input@.len() <= crate::outside::cipher::max_plain_len(),
        r matches Ok((data, pass)) ==> exists|key: Seq<u8>, nonce: Seq<u8>|
            #![trigger crate::chunk::sealed_chunk(key, nonce, input@)]
            key.len() == 32 && nonce.len() == 12 && data@ == crate::chunk::sealed_chunk(
                key,
                nonce,
                input@,
            ) && pass@ == crate::outside::encoding::base64_text(key),
        r matches Ok((data, pass)) ==> crate::chunk::opened_with_passphrase(pass@, data@) == Ok::<
            Seq<u8>,
            crate::chunk::OpenError,
        >(input@),
        r matches Err(e) ==> e.len == input@.len(),
{
    let key = random_bytes::<32>();
    let nonce = random_bytes::<12>();
    encrypt_chunk_under(&key, &nonce, input)
}

/// A chunk on its way: what is uploaded, under which name, and what the client is told
/// once it is.
#[derive(Debug)]
pub struct Upload {
    pub key: String,
    pub data: Vec<u8>,
    pub notice: ServerResponse,
}

/// The client is told of the chunk `chunk_id` in words that open `data` to `plain`.
pub open spec fn announces(notice: ServerResponse, chunk_id: u64, data: Seq<u8>, plain: Seq<u8>) -> bool {
    notice matches ServerResponse::ChunkReadyForDownload { chunk_id: id, passphrase_b64 } && id
        == chunk_id && crate::chunk::opened_with_passphrase(passphrase_b64@, data) == Ok::<
        Seq<u8>,
        crate::chunk::OpenError,
    >(plain)
}

/// Makes the upload of chunk `chunk_id` from what was read of it. A chunk of which
/// nothing could be read lies behind the end of the file.
pub fn upload_chunk(chunk_id: u64, data: &[u8]) -> (r: Result<Upload, UploadError>)
    requires
        data@.len() + 28 <= isize::MAX,
    ensures
        r is Ok <==> 0 < data@.len() <= crate::outside::cipher::max_plain_len(),
        r matches Ok(u) ==> u.key@ == crate::number::decimal(chunk_id as nat) && announces(
            u.notice,
            chunk_id,
            u.data@,
            data@,
        ),
        data@.len() == 0 ==> r == Err::<Upload, UploadError>(UploadError::Empty { chunk_id }),
        data@.len() > crate::outside::cipher::max_plain_len() ==> r == Err::<Upload, UploadError>(
            UploadError::Seal { chunk_id },
        ),
{
    if data.len() == 0 {
        return Err(UploadError::Empty { chunk_id });
    }
    match encrypt_chunk(data) {
        Err(_) => Err(UploadError::Seal { chunk_id }),
        Ok((encrypted, passphrase_b64)) => Ok(
            Upload {
                key: decimal_of(chunk_id),
                data: encrypted,
                notice: ServerResponse::ChunkReadyForDownload { chunk_id, passphrase_b64 },
            },
        ),
    }
}

/// Ends the upload of a chunk with the answer of the store: the client is told only of
/// a chunk that is there.
pub fn uploaded(upload: Upload, put: Result<(), String>) -> (r: Result<ServerResponse, String>)
    ensures
        r is Ok <==> put is Ok,
        r matches Ok(notice) ==> notice == upload.notice,
        r matches Err(e) ==> e@ == "分块 #"@ + upload.key@ + " 上传失败 (已自动重试): "@
            + (put->Err_0)@,
{
    match put {
        Ok(_) => Ok(upload.notice),
        Err(reason) => Err(
            cat4(
                "分块 #",
                upload.key.as_str(),
                " 上传失败 (已自动重试): ",
                reason.as_str(),
            ),
        ),
    }
}

/// What is announced as left and what is done make up the file: nothing less is left of a
/// file of which nothing is done, each chunk that is done takes its size from what is left,
/// and nothing is left once they reach the end.
pub proof fn law_remaining_and_done_make_up_file(file_size: nat, chunk_size: nat, done: nat)
    ensures
        remaining(file_size, chunk_size, 0) == file_size,
        done * chunk_size <= file_size ==> remaining(file_size, chunk_size, done) + done
            * chunk_size == file_size,
        done * chunk_size >= file_size ==> remaining(file_size, chunk_size, done) == 0,
        (done + 1) * chunk_size <= file_size ==> remaining(file_size, chunk_size, done + 1)
            + chunk_size == remaining(file_size, chunk_size, done),
{
    vstd::arithmetic::mul::lemma_mul_is_distributive_add_other_way(
        chunk_size as int,
        done as int,
        1,
    );
}

/// Bytes of the chunks of a file among the first `n` that are not done.
pub open spec fn missing_bytes(bits: Seq<bool>, file_size: nat, chunk_size: nat, n: nat) -> nat
    decreases n,
{
    if n == 0 {
        0
    } else {
        missing_bytes(bits, file_size, chunk_size, (n - 1) as nat) + if bits[n - 1] {
            0
        } else {
            crate::number::chunk_len(file_size, chunk_size, (n - 1) as nat)
        }
    }
}

proof fn lemma_missing_bytes(bits: Seq<bool>, file_size: nat, chunk_size: nat, n: nat)
    requires
        chunk_size > 0,
        n < bits.len(),
        bits.len() == crate::number::chunk_count(file_size, chunk_size),
    ensures
        missing_bytes(bits, file_size, chunk_size, n) + crate::outside::bits::count_set(
            bits.take(n as int),
        ) * chunk_size == n * chunk_size,
    decreases n,
{
    if n > 0 {
        let p = (n - 1) as nat;
        lemma_missing_bytes(bits, file_size, chunk_size, p);
        crate::number::law_chunks_make_up_file(file_size, chunk_size, p);
        assert(bits.take(n as int).drop_last() == bits.take(p as int));
        assert(bits.take(n as int).last() == bits[p as int]);
        vstd::arithmetic::mul::lemma_mul_is_distributive_add_other_way(
            chunk_size as int,
            p as int,
            1,
        );
        vstd::arithmetic::mul::lemma_mul_is_distributive_add_other_way(
            chunk_size as int,
            crate::outside::bits::count_set(bits.take(p as int)) as int,
            1,
        );
    } else {
        assert(bits.take(0) =~= Seq::<bool>::empty());
    }
}

/// What is announced as left is what will be sent, as long as the last chunk is not done:
/// the bytes of just those chunks of the file that are not done.
pub proof fn law_remaining_is_what_is_missing(bits: Seq<bool>, file_size: nat, chunk_size: nat)
    requires
        chunk_size > 0,
        bits.len() == crate::number::chunk_count(file_size, chunk_size),
        bits.len() > 0 ==> !bits.last(),
    ensures
        remaining(file_size, chunk_size, crate::outside::bits::count_set(bits)) == missing_bytes(
            bits,
            file_size,
            chunk_size,
            bits.len(),
        ),
{
    if bits.len() > 0 {
        let p = (bits.len() - 1) as nat;
        lemma_missing_bytes(bits, file_size, chunk_size, p);
        crate::number::law_chunks_make_up_file(file_size, chunk_size, p);
        crate::number::law_chunks_cover_file(file_size, chunk_size, p);
        assert(bits.drop_last() == bits.take(p as int));
        let c = crate::outside::bits::count_set(bits);
        crate::common::bitmap::law_counts_add_up(bits.take(p as int));
        assert(c * chunk_size <= p * chunk_size) by (nonlinear_arith)
            requires
                c <= p,
        ;
    } else {
        crate::number::law_chunks_cover_file(file_size, chunk_size, 0);
        crate::common::bitmap::law_counts_add_up(bits);
    }
}

/// The bitmap that the client sent counts for the chunks of the file and for no others, and
/// says of each what it said.
pub proof fn law_fitted_keeps_the_chunks(bits: Seq<bool>, total_chunks: u64)
    ensures
        fitted(bits, total_chunks).len() <= total_chunks,
        fitted(bits, total_chunks).len() <= bits.len(),
        bits.len() <= total_chunks || fitted(bits, total_chunks).len() == total_chunks,
        bits.len() <= total_chunks ==> fitted(bits, total_chunks) == bits,
        forall|i: int|
            0 <= i < fitted(bits, total_chunks).len() ==> #[trigger] fitted(bits, total_chunks)[i]
                == bits[i],
{
}

/// A file is sent under its own name from the path that was asked for: any request with a
/// chunk size, for a path that names a file, is about that file, and the name is the last
/// part of the path.
pub proof fn law_target_is_what_was_asked_for(
    r: Result<SetupTarget, ServerResponse>,
    path: Seq<char>,
    expanded: Seq<char>,
    chunk_size: u64,
)
    requires
        is_target(r, path, expanded, chunk_size),
    ensures
        r is Ok <==> chunk_size > 0 && crate::path::file_name(expanded) is Some,
        r matches Ok(t) ==> t.file_path@ == expanded && crate::path::file_name(t.file_path@)
            == Some(t.file_name@),
        r matches Err(e) ==> e is Error,
{
}

/// A path without a tilde in front is looked at as it is, whatever the home directory; with
/// one alone or in front of a slash, the home directory stands in for it.
pub proof fn law_tilde_is_the_home_directory(
    path: Seq<char>,
    rest: Seq<char>,
    home: Option<String>,
    expanded: Seq<char>,
)
    requires
        is_expanded(path, home, expanded),
    ensures
        path.len() == 0 || path[0] != '~' ==> expanded == path,
        home is None ==> expanded == path,
        home is Some && path == seq!['~'] ==> expanded == home->0@,
        home is Some && path == seq!['~', '/'] + rest ==> expanded == home->0@ + seq!['/'] + rest,
        path.len() > 1 && path[0] == '~' && path[1] != '/' && path[1] != '\\' ==> expanded == path,
{
    if home is Some && path == seq!['~'] {
        assert(home->0@ + path.drop_first() =~= home->0@);
    }
    if home is Some && path == seq!['~', '/'] + rest {
        assert(home->0@ + path.drop_first() =~= home->0@ + seq!['/'] + rest);
    }
}

/// A file that is there is found: the answer gives its name, its size, its hash and how many
/// chunks it takes, so that they cover it and the last of them is not empty. Anything else
/// is answered with an error.
pub proof fn law_found_file_is_described(
    r: ServerResponse,
    file_path: Seq<char>,
    file_name: Seq<char>,
    chunk_size: u64,
    probe: FileProbe,
)
    requires
        chunk_size > 0,
        is_file_reply(r, file_path, file_name, chunk_size, probe),
    ensures
        !(probe is File) ==> r is Error,
        probe matches FileProbe::File { size, xxh3 } ==> (r matches ServerResponse::SetupSuccess(
            info,
        ) && info.file_name@ == file_name && info.file_size == size && info.xxh3@ == xxh3@ && size
            <= info.total_chunks * chunk_size < size + chunk_size),
{
    if let FileProbe::File { size, .. } = probe {
        crate::number::law_chunks_cover_file(size as nat, chunk_size as nat, 0);
    }
}

/// The words about a file that could not be sent name it, and end with the reason where
/// there is one.
pub proof fn law_refusal_names_the_file(
    r: ServerResponse,
    file_path: Seq<char>,
    file_name: Seq<char>,
    chunk_size: u64,
    probe: FileProbe,
)
    requires
        !(probe is File),
        is_file_reply(r, file_path, file_name, chunk_size, probe),
    ensures
        crate::text::occurs(r->Error_0@, "'"@ + file_path + "'"@),
        probe matches FileProbe::Failed(reason) ==> r->Error_0@.len() >= reason@.len()
            && r->Error_0@.skip(r->Error_0@.len() - reason@.len()) == reason@,
{
    let words = r->Error_0@;
    let n = "'"@ + file_path + "'"@;
    reveal_strlit("'");
    reveal_strlit("': ");
    reveal_strlit("文件未找到: '");
    reveal_strlit("无法访问文件 '");
    reveal_strlit("路径指向一个目录，而不是文件: '");
    let k: int = match probe {
        FileProbe::NotFound => "文件未找到: '"@.len() - 1,
        FileProbe::Failed(_) => "无法访问文件 '"@.len() - 1,
        _ => "路径指向一个目录，而不是文件: '"@.len() - 1,
    };
    assert(words.subrange(k, k + n.len()) =~= n);
    assert(crate::text::occurs_at(words, n, k));
    if let FileProbe::Failed(reason) = probe {
        assert(words.skip(words.len() - reason@.len()) =~= reason@);
    }
}

/// The file that was described is the one that is remembered: with the path, the size, the
/// chunk size and the number of chunks that the client was told.
pub proof fn law_described_file_is_remembered(
    r: ServerResponse,
    before: Memory,
    after: Memory,
    file_path: Seq<char>,
    file_name: Seq<char>,
    chunk_size: u64,
    probe: FileProbe,
)
    requires
        is_file_reply(r, file_path, file_name, chunk_size, probe),
        remembers_file(before, after, file_path, chunk_size, probe),
    ensures
        r matches ServerResponse::SetupSuccess(info) ==> (after.metadata matches Some(m)
            && m.path_text() == file_path && m.size() == info.file_size && m.total()
            == info.total_chunks && m.chunk() == chunk_size),
        r is Error ==> after == before,
        after.chunk_bitmap == before.chunk_bitmap,
{
}

/// A request that names no file, or asks for chunks of no bytes, is refused, and every other
/// is answered about the file that it names.
pub proof fn law_setup_answers_about_its_file(
    r: ServerResponse,
    path: Seq<char>,
    expanded: Seq<char>,
    chunk_size: u64,
    probe: FileProbe,
)
    requires
        is_setup_reply(r, path, expanded, chunk_size, probe),
    ensures
        r is SetupSuccess <==> chunk_size > 0 && crate::path::file_name(expanded) is Some
            && probe is File,
        r matches ServerResponse::SetupSuccess(info) ==> crate::path::file_name(expanded) == Some(
            info.file_name@,
        ) && info.file_size == probe->size && info.xxh3@ == probe->xxh3@ && probe->size
            <= info.total_chunks * chunk_size < probe->size + chunk_size,
        !(r is SetupSuccess) ==> r is Error,
{
    if chunk_size > 0 && crate::path::file_name(expanded) is Some {
        law_found_file_is_described(
            r,
            expanded,
            crate::path::file_name(expanded)->0,
            chunk_size,
            probe,
        );
    }
}

/// A few chunks are uploaded at the same time, and never more than five.
pub proof fn law_few_uploads_run(s: Scheduler)
    requires
        s.wf(),
    ensures
        s.running() <= 5,
        !s.is_stopped() && s.begun() < s.waiting().len() ==> s.running() == 5,
        s.running() <= s.begun() <= s.waiting().len(),
{
}

/// The chunk that the client is told of is the one that was uploaded: what it is told opens
/// to one thing only, under one number.
pub proof fn law_notice_is_for_one_chunk(
    notice: ServerResponse,
    a: u64,
    b: u64,
    data: Seq<u8>,
    plain_a: Seq<u8>,
    plain_b: Seq<u8>,
)
    requires
        announces(notice, a, data, plain_a),
        announces(notice, b, data, plain_b),
    ensures
        a == b,
        plain_a == plain_b,
        notice->chunk_id == a,
        crate::chunk::opened_with_passphrase(notice->passphrase_b64@, data) == Ok::<
            Seq<u8>,
            crate::chunk::OpenError,
        >(plain_a),
{
}

/// A notice with the number of a chunk and a passphrase that opens it announces the chunk,
/// whatever the chunk is.
pub proof fn law_opening_passphrase_announces(
    chunk_id: u64,
    passphrase_b64: String,
    data: Seq<u8>,
    plain: Seq<u8>,
)
    requires
        crate::chunk::opened_with_passphrase(passphrase_b64@, data) == Ok::<
            Seq<u8>,
            crate::chunk::OpenError,
        >(plain),
    ensures
        announces(
            ServerResponse::ChunkReadyForDownload { chunk_id, passphrase_b64 },
            chunk_id,
            data,
            plain,
        ),
{
}

/// The words about a chunk that was not uploaded name it: the words of one kind for two
/// chunks are different.
pub proof fn law_upload_error_names_the_chunk(a: UploadError, b: UploadError)
    requires
        a.message() == b.message(),
        a is Empty == b is Empty,
    ensures
        a == b,
{
    reveal_strlit("指定的块号 ");
    reveal_strlit(" 超出文件范围，没有可读取的数据。");
    reveal_strlit("分块 #");
    reveal_strlit(" 加密失败");
    let (i, j, head, tail) = if a is Empty {
        (
            a->Empty_chunk_id,
            b->Empty_chunk_id,
            "指定的块号 "@,
            " 超出文件范围，没有可读取的数据。"@,
        )
    } else {
        (a->Seal_chunk_id, b->Seal_chunk_id, "分块 #"@, " 加密失败"@)
    };
    let x = crate::number::decimal(i as nat) + tail;
    let y = crate::number::decimal(j as nat) + tail;
    assert(a.message() =~= head + x);
    assert(b.message() =~= head + y);
    assert(x =~= (head + x).skip(head.len() as int));
    assert(y =~= (head + y).skip(head.len() as int));
    crate::number::law_decimal_ends_at_no_digit(i as nat, j as nat, tail, tail);
}

/// The client is told every link of an error, each where it stands in the chain: the
/// outermost first, and each further one behind what was said before it.
pub proof fn law_start_failure_tells_every_link(parts: Seq<Seq<char>>, cause: Seq<char>)
    requires
        parts.len() > 0,
    ensures
        start_failed_text(parts.push(cause)) == start_failed_text(parts) + "\n  caused by: "@
            + cause,
        start_failed_text(seq![cause]) == "start 上传任务执行失败:\n"@ + cause,
{
    assert(parts.push(cause).drop_last() == parts);
    assert(start_failed_text(parts.push(cause)) =~= start_failed_text(parts)
        + "\n  caused by: "@ + cause);
    assert(seq![cause][0] == cause);
}

}
