//! Answers of the HTTP service.
use crate::common::events::{SetupRequestPayload, SetupResponse, TaskEvent};
use crate::number::count_chunks;
use crate::outside::shell::expand_tilde;
use crate::path::file_name_of;
use crate::remote::state::{TaskContext, TaskMetadata};
use crate::text::cat3;
use vstd::prelude::*;

verus! {

/// HTTP status of an answer that was given.
pub const STATUS_OK: u16 = 200;

/// HTTP status of a request that cannot be served as it is.
pub const STATUS_BAD_REQUEST: u16 = 400;

/// HTTP status of a request that failed on this side.
pub const STATUS_INTERNAL_ERROR: u16 = 500;

/// A refusal: HTTP status and words.
#[derive(Debug)]
pub struct Refusal {
    pub status: u16,
    pub message: String,
}

/// `r` refuses with this status and these words.
pub open spec fn refuses(r: Refusal, status: u16, message: Seq<char>) -> bool {
    r.status == status && r.message@ == message
}

/// The answer to the question whether the service is there.
pub fn healthy() -> (r: u16)
    ensures
        r == STATUS_OK,
{
    STATUS_OK
}

/// The path and the name of the file that a request is about.
#[derive(Debug)]
pub struct Source {
    pub path: String,
    pub filename: String,
}

/// `r` is the file that a request is about, or its refusal; `expanded` is the path with
/// the home directory put in.
pub open spec fn is_source(r: Result<Source, Refusal>, expanded: Seq<char>, chunk_size: u64) -> bool {
    if chunk_size == 0 {
        r matches Err(e) && refuses(e, STATUS_BAD_REQUEST, "chunk_size 不能为 0"@)
    } else {
        match crate::path::file_name(expanded) {
            None => r matches Err(e) && refuses(
                e,
                STATUS_BAD_REQUEST,
                "无法从路径 '"@ + expanded + "' 中提取文件名"@,
            ),
            Some(name) => r matches Ok(s) && s.path@ == expanded && s.filename@ == name,
        }
    }
}

/// Finds the file that a request is about when its path expands to `expanded`.
pub fn source_of(expanded: &str, chunk_size: u64) -> (r: Result<Source, Refusal>)
    ensures
        is_source(r, expanded@, chunk_size),
{
    if chunk_size == 0 {
        return Err(
            Refusal { status: STATUS_BAD_REQUEST, message: "chunk_size 不能为 0".to_owned() },
        );
    }
    match file_name_of(expanded) {
        None => Err(
            Refusal {
                status: STATUS_BAD_REQUEST,
                message: cat3("无法从路径 '", expanded, "' 中提取文件名"),
            },
        ),
        Some(filename) => Ok(Source { path: expanded.to_owned(), filename }),
    }
}

/// Finds the file that a request is about; `home` is the home directory, where there is
/// one.
pub fn setup_source(payload: &SetupRequestPayload, home: &Option<String>) -> (r: Result<
    Source,
    Refusal,
>)
    ensures
        exists|expanded: Seq<char>| #[trigger]
            crate::remote::server::is_expanded(payload.path@, *home, expanded) && is_source(
                r,
                expanded,
                payload.chunk_size,
            ),
        !crate::outside::shell::has_backslash_tilde(payload.path@) ==> is_source(
            r,
            crate::outside::shell::expanded_path(payload.path@, *home),
            payload.chunk_size,
        ),
{
    let expanded = expand_tilde(payload.path.as_str(), home);
    assert(crate::remote::server::is_expanded(payload.path@, *home, expanded@));
    source_of(expanded.as_str(), payload.chunk_size)
}

/// What was read of the file: its size where it could be found out, and then its
/// SHA-256 or the reason why there is none.
#[derive(Debug)]
pub struct SourceProbe {
    pub size: Option<u64>,
    pub sha256: Result<String, String>,
}

/// `r` is the answer about a file of which `probe` is known.
pub open spec fn is_setup_answer(
    r: Result<SetupResponse, Refusal>,
    source: Source,
    chunk_size: u64,
    probe: SourceProbe,
) -> bool {
    match probe.size {
        None => r matches Err(e) && refuses(
            e,
            STATUS_INTERNAL_ERROR,
            "获取文件 '"@ + source.path@ + "' 的大小失败"@,
        ),
        Some(size) => match probe.sha256 {
            Err(reason) => r matches Err(e) && refuses(
                e,
                STATUS_INTERNAL_ERROR,
                "计算文件 '"@ + source.path@ + "' 的 SHA256 哈希失败: "@ + reason@,
            ),
            Ok(sha256) => r matches Ok(a) && a.filename@ == source.filename@ && a.size == size
                && a.sha256@ == sha256@ && a.total_chunks == crate::number::chunk_count(
                size as nat,
                chunk_size as nat,
            ),
        },
    }
}

/// `m` describes the task that was set up.
pub open spec fn describes_task(
    m: TaskMetadata,
    source: Source,
    chunk_size: u64,
    concurrency: u64,
    size: u64,
) -> bool {
    &&& m.source_path@ == source.path@
    &&& m.source_filename@ == source.filename@
    &&& m.source_size == size
    &&& m.chunk_size == chunk_size
    &&& m.total_chunks == crate::number::chunk_count(size as nat, chunk_size as nat)
    &&& m.concurrency == concurrency
}

/// Answers about a file of which `probe` is known. A file that can be sent becomes the
/// task, in place of any other; otherwise nothing changes.
pub fn setup(
    context: &mut TaskContext,
    source: Source,
    chunk_size: u64,
    concurrency: u64,
    probe: SourceProbe,
) -> (r: Result<SetupResponse, Refusal>)
    requires
        chunk_size > 0,
    ensures
        is_setup_answer(r, source, chunk_size, probe),
        r is Err ==> *final(context) == *old(context),
        r is Ok ==> final(context).metadata is Some && describes_task(
            final(context).metadata->0,
            source,
            chunk_size,
            concurrency,
            probe.size->0,
        ) && final(context).chunks == old(context).chunks && final(context).running == old(
            context,
        ).running,
{
    let size: u64 = match probe.size {
        None => {
            return Err(
                Refusal {
                    status: STATUS_INTERNAL_ERROR,
                    message: cat3("获取文件 '", source.path.as_str(), "' 的大小失败"),
                },
            );
        },
        Some(n) => n,
    };
    let total_chunks: u64 = count_chunks(size, chunk_size);
    match probe.sha256 {
        Err(reason) => {
            let mut message = cat3(
                "计算文件 '",
                source.path.as_str(),
                "' 的 SHA256 哈希失败: ",
            );
            message.append(reason.as_str());
            Err(Refusal { status: STATUS_INTERNAL_ERROR, message })
        },
        Ok(sha256) => {
            context.metadata = Some(
                TaskMetadata {
                    source_path: source.path,
                    source_filename: source.filename.clone(),
                    source_size: size,
                    chunk_size,
                    total_chunks,
                    concurrency,
                },
            );
            Ok(SetupResponse { filename: source.filename, size, sha256, total_chunks })
        },
    }
}

/// Lets a task start, or refuses when one runs already: then the one report that the
/// caller gets.
pub fn start(context: &mut TaskContext) -> (r: Option<TaskEvent>)
    ensures
        final(context).running,
        final(context).metadata == old(context).metadata,
        final(context).chunks == old(context).chunks,
        r is Some <==> old(context).running,
        r matches Some(e) ==> (e matches TaskEvent::Error { message } && message@
            == "Task is already running."@),
{
    if context.running {
        Some(TaskEvent::Error { message: "Task is already running.".to_owned() })
    } else {
        context.running = true;
        None
    }
}

/// No report follows this one.
pub open spec fn is_final(event: TaskEvent) -> bool {
    event is TaskCompleted || event is Error
}

/// What came out of the channel of reports.
#[derive(Debug)]
pub enum Received {
    Report(TaskEvent),
    /// Some reports were lost.
    Lagged(u64),
    Closed,
}

/// What goes into the stream, and whether the stream goes on.
#[derive(Debug)]
pub struct StreamStep {
    pub emit: Option<TaskEvent>,
    pub go_on: bool,
}

/// Passes reports on to the client. The stream ends behind a final report, and when the
/// channel closes.
pub fn stream_step(received: Received) -> (r: StreamStep)
    ensures
        match received {
            Received::Report(event) => r.emit == Some(event) && r.go_on == !is_final(event),
            Received::Lagged(_) => r.emit is None && r.go_on,
            Received::Closed => r.emit is None && !r.go_on,
        },
{
    match received {
        Received::Report(event) => {
            let last = match &event {
                TaskEvent::TaskCompleted => true,
                TaskEvent::Error { .. } => true,
                _ => false,
            };
            StreamStep { emit: Some(event), go_on: !last }
        },
        Received::Lagged(_) => StreamStep { emit: None, go_on: true },
        Received::Closed => StreamStep { emit: None, go_on: false },
    }
}

/// A request is served for the file that its path names, under the name that the path ends
/// in; one without a chunk size, or whose path names no file, is refused as a bad request.
pub proof fn law_source_is_what_was_asked_for(
    r: Result<Source, Refusal>,
    expanded: Seq<char>,
    chunk_size: u64,
)
    requires
        is_source(r, expanded, chunk_size),
    ensures
        r is Ok <==> chunk_size > 0 && crate::path::file_name(expanded) is Some,
        r matches Ok(s) ==> s.path@ == expanded && crate::path::file_name(s.path@) == Some(
            s.filename@,
        ),
        r matches Err(e) ==> e.status == 400,
        r is Err && chunk_size > 0 ==> crate::text::occurs(
            r->Err_0.message@,
            "'"@ + expanded + "'"@,
        ),
{
    if r is Err && chunk_size > 0 {
        let w = r->Err_0.message@;
        let n = "'"@ + expanded + "'"@;
        reveal_strlit("'");
        reveal_strlit("无法从路径 '");
        reveal_strlit("' 中提取文件名");
        let k = "无法从路径 '"@.len() - 1;
        assert(w.subrange(k, k + n.len()) =~= n);
        assert(crate::text::occurs_at(w, n, k));
    }
}

/// A file of which size and digest are known is described by them, and by as many chunks as
/// cover it; any other is refused as a failure of this side, in words that name it.
pub proof fn law_known_file_is_described(
    r: Result<SetupResponse, Refusal>,
    source: Source,
    chunk_size: u64,
    probe: SourceProbe,
)
    requires
        chunk_size > 0,
        is_setup_answer(r, source, chunk_size, probe),
    ensures
        r is Ok <==> probe.size is Some && probe.sha256 is Ok,
        r matches Ok(a) ==> a.filename@ == source.filename@ && Some(a.size) == probe.size
            && a.sha256@ == probe.sha256->Ok_0@ && a.size <= a.total_chunks * chunk_size < a.size
            + chunk_size,
        r matches Err(e) ==> e.status == 500 && crate::text::occurs(
            e.message@,
            "'"@ + source.path@ + "'"@,
        ),
        r is Err && probe.size is Some ==> r->Err_0.message@.len() >= probe.sha256->Err_0@.len()
            && r->Err_0.message@.skip(r->Err_0.message@.len() - probe.sha256->Err_0@.len())
            == probe.sha256->Err_0@,
{
    if r is Ok {
        crate::number::law_chunks_cover_file(probe.size->0 as nat, chunk_size as nat, 0);
    } else {
        let w = r->Err_0.message@;
        let n = "'"@ + source.path@ + "'"@;
        reveal_strlit("'");
        reveal_strlit("获取文件 '");
        reveal_strlit("' 的大小失败");
        reveal_strlit("计算文件 '");
        reveal_strlit("' 的 SHA256 哈希失败: ");
        let k = if probe.size is None {
            "获取文件 '"@.len() - 1
        } else {
            "计算文件 '"@.len() - 1
        };
        assert(w.subrange(k, k + n.len()) =~= n);
        assert(crate::text::occurs_at(w, n, k));
        if probe.size is Some {
            let t = probe.sha256->Err_0@;
            assert(w.skip(w.len() - t.len()) =~= t);
        }
    }
}

/// The task is the file that was described: what is kept of it and what was answered have
/// the same name, size and number of chunks.
pub proof fn law_described_file_is_the_task(
    r: Result<SetupResponse, Refusal>,
    m: TaskMetadata,
    source: Source,
    chunk_size: u64,
    concurrency: u64,
    probe: SourceProbe,
)
    requires
        r is Ok,
        is_setup_answer(r, source, chunk_size, probe),
        describes_task(m, source, chunk_size, concurrency, probe.size->0),
    ensures
        m.source_filename@ == r->Ok_0.filename@,
        m.source_size == r->Ok_0.size,
        m.total_chunks == r->Ok_0.total_chunks,
        m.source_path@ == source.path@,
        m.chunk_size == chunk_size,
        m.concurrency == concurrency,
{
}

/// A stream of reports goes on until the task is over, well or not: reports on the way do
/// not end it.
pub proof fn law_stream_ends_with_the_task(
    chunk_id: u64,
    passphrase_b64: String,
    message: String,
)
    ensures
        is_final(TaskEvent::TaskCompleted),
        is_final(TaskEvent::Error { message }),
        !is_final(TaskEvent::ProcessingStart),
        !is_final(TaskEvent::ChunkReadyForDownload { chunk_id, passphrase_b64 }),
        !is_final(TaskEvent::ChunkAcknowledged { chunk_id }),
{
}

/// The statuses of answers are those of HTTP.
pub proof fn law_statuses_are_those_of_http(r: Refusal, words: Seq<char>)
    ensures
        STATUS_OK == 200,
        refuses(r, STATUS_BAD_REQUEST, words) ==> r.status == 400 && r.message@ == words,
        refuses(r, STATUS_INTERNAL_ERROR, words) ==> r.status == 500 && r.message@ == words,
{
}

}
