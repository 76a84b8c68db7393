//! Fetching a file from a remote program that is asked step by step.
use crate::client::file::ChunkResult;
use crate::common::utils::format_size;
use crate::number::decimal_of;
use crate::text::{cat2, cat4, cat5};
use std::collections::HashSet;
use vstd::prelude::*;

verus! {

broadcast use vstd::std_specs::hash::group_hash_axioms;

/// What the remote program answers.
#[derive(Debug)]
pub enum ServerReply {
    Ready,
    SetupSuccess { file_name: String, file_size: u64, total_chunks: u64 },
    StartSuccess { remaining_size: u64 },
    ChunkReadyForDownload { chunk_id: u64, passphrase_b64: String, retry: bool },
    UploadCompleted,
    Error(String),
}

/// What was found out about the file.
#[derive(Debug)]
pub struct FileInfo {
    pub file_name: String,
    pub file_size: u64,
    pub total_chunks: u64,
}

/// Waits for the first answer: it must say that the remote program is ready. `shown` is
/// the answer for people.
pub fn expect_ready(reply: &Option<ServerReply>, shown: &str) -> (r: Result<(), String>)
    ensures
        r is Ok <==> *reply == Some(ServerReply::Ready),
        r matches Err(e) ==> e@ == if reply is Some {
            "协议错误：期望收到 Ready 响应，但收到了 "@ + shown@
        } else {
            "连接已关闭，未收到任何响应"@
        },
{
    match reply {
        Some(ServerReply::Ready) => Ok(()),
        Some(_) => Err(cat2("协议错误：期望收到 Ready 响应，但收到了 ", shown)),
        None => Err("连接已关闭，未收到任何响应".to_owned()),
    }
}

/// `r` is what the answer to a setup comes to.
pub open spec fn is_setup_outcome(
    r: Result<FileInfo, String>,
    reply: Result<Option<ServerReply>, String>,
    shown: Seq<char>,
) -> bool {
    match reply {
        Ok(Some(ServerReply::SetupSuccess { file_name, file_size, total_chunks })) => {
            &&& r matches Ok(info)
            &&& info.file_name@ == file_name@
            &&& info.file_size == file_size
            &&& info.total_chunks == total_chunks
        },
        Ok(Some(ServerReply::Error(msg))) => r matches Err(e) && e@ == "服务端错误: "@ + msg@,
        Ok(Some(_)) => r matches Err(e) && e@
            == "意外的响应: 收到了非预期的服务器响应 "@ + shown,
        Ok(None) => r matches Err(e) && e@ == "连接中断: 在等待设置响应时连接已关闭"@,
        Err(reason) => r matches Err(e) && e@ == "通信错误: "@ + reason@,
    }
}

/// Judges the answer to a setup.
pub fn setup(reply: Result<Option<ServerReply>, String>, shown: &str) -> (r: Result<
    FileInfo,
    String,
>)
    ensures
        is_setup_outcome(r, reply, shown@),
{
    match reply {
        Ok(Some(ServerReply::SetupSuccess { file_name, file_size, total_chunks })) => Ok(
            FileInfo { file_name, file_size, total_chunks },
        ),
        Ok(Some(ServerReply::Error(msg))) => Err(cat2("服务端错误: ", msg.as_str())),
        Ok(Some(_)) => Err(cat2("意外的响应: 收到了非预期的服务器响应 ", shown)),
        Ok(None) => Err("连接中断: 在等待设置响应时连接已关闭".to_owned()),
        Err(reason) => Err(cat2("通信错误: ", reason.as_str())),
    }
}

/// The words about a file that was found.
pub fn setup_notice(info: &FileInfo) -> (r: String)
    ensures
        r@ == "✅ 文件名称: "@ + info.file_name@ + " (大小: "@ + crate::common::utils::size_text(
            info.file_size as nat,
        ) + ")"@,
{
    cat5(
        "✅ 文件名称: ",
        info.file_name.as_str(),
        " (大小: ",
        format_size(info.file_size).as_str(),
        ")",
    )
}

/// Judges the answer to a start: how much is going to come.
pub fn start(reply: &Option<ServerReply>, shown: &str) -> (r: Result<u64, String>)
    ensures
        match *reply {
            Some(ServerReply::StartSuccess { remaining_size }) => r == Ok::<u64, String>(
                remaining_size,
            ),
            Some(_) => r matches Err(e) && e@
                == "协议错误: 期望收到 StartSuccess，但收到 "@ + shown@,
            None => r matches Err(e) && e@
                == "连接中断: 在等待 StartSuccess 响应时连接已关闭"@,
        },
{
    match reply {
        Some(ServerReply::StartSuccess { remaining_size }) => Ok(*remaining_size),
        Some(_) => Err(cat2("协议错误: 期望收到 StartSuccess，但收到 ", shown)),
        None => Err("连接中断: 在等待 StartSuccess 响应时连接已关闭".to_owned()),
    }
}

/// The client: where the download goes on, and the file once it was found.
#[derive(Debug)]
pub struct GMFClient {
    pub resume_from_chunk_id: u64,
    pub file: Option<FileInfo>,
}

impl GMFClient {
    /// A client that has not asked for anything yet.
    pub fn new() -> (r: GMFClient)
        ensures
            r.resume_from_chunk_id == 0,
            r.file is None,
    {
        GMFClient { resume_from_chunk_id: 0, file: None }
    }

    /// Begins the download of the file that was found, behind the chunks that are there.
    pub fn begin(&mut self, info: FileInfo, completed_chunks: u64)
        ensures
            final(self).resume_from_chunk_id == completed_chunks,
            final(self).file == Some(info),
    {
        self.resume_from_chunk_id = completed_chunks;
        self.file = Some(info);
    }

    /// Starts the download of the file, which must have been found; it can start once.
    pub fn take_file(&mut self) -> (r: Result<EventLoop, String>)
        ensures
            r is Ok <==> old(self).file is Some,
            r matches Ok(l) ==> l.total_chunks == old(self).file->0.total_chunks && l.completed@
                == below(old(self).resume_from_chunk_id) && !l.upload_completed && l.running == 0,
            r matches Err(e) ==> e@ == "内部状态错误: file 未初始化"@,
            final(self).file is None,
            final(self).resume_from_chunk_id == old(self).resume_from_chunk_id,
    {
        match self.file.take() {
            Some(info) => Ok(EventLoop::new(self.resume_from_chunk_id, info.total_chunks)),
            None => Err("内部状态错误: file 未初始化".to_owned()),
        }
    }
}

/// The numbers below `n`.
pub open spec fn below(n: u64) -> Set<u64> {
    Set::new(|i: u64| i < n)
}

/// Takes the chunks of a file as they become ready, and counts them.
#[derive(Debug)]
pub struct EventLoop {
    pub completed: HashSet<u64>,
    pub total_chunks: u64,
    /// Whether the remote side has sent everything.
    pub upload_completed: bool,
    /// How many chunks are being fetched.
    pub running: usize,
}

/// What happened in the download.
#[derive(Debug)]
pub enum LoopEvent {
    /// The work on a chunk ended.
    Ended(ChunkResult),
    /// The work on a chunk broke off, with these words.
    Panicked(String),
    Reply(ServerReply),
    /// The remote side has closed the connection.
    Closed,
    /// The remote side was silent for too long.
    TimedOut,
}

/// What the download does.
#[derive(Debug)]
pub enum LoopAction {
    /// The chunk is done.
    Counted { chunk_id: u64 },
    /// Ask for a chunk again.
    Retry { chunk_id: u64 },
    /// Fetch a chunk.
    Fetch { chunk_id: u64, passphrase_b64: String, retry: bool },
    /// Note how long the remote side took.
    NoteUploadTime,
    /// Warn with these words.
    Warn(String),
    /// End with these words.
    Fail(String),
}

impl EventLoop {
    /// Starts behind the chunks that are done already: the first `resume_from`.
    pub fn new(resume_from_chunk_id: u64, total_chunks: u64) -> (r: EventLoop)
        ensures
            r.completed@ == below(resume_from_chunk_id),
            r.total_chunks == total_chunks,
            !r.upload_completed,
            r.running == 0,
    {
        let mut completed: HashSet<u64> = HashSet::new();
        assert(completed@ =~= below(0));
        for i in 0..resume_from_chunk_id
            invariant
                completed@ == below(i),
        {
            completed.insert(i);
            assert(completed@ =~= below((i + 1) as u64));
        }
        EventLoop { completed, total_chunks, upload_completed: false, running: 0 }
    }

    /// Whether as many chunks are done as the file takes.
    pub fn is_finished(&self) -> (r: bool)
        ensures
            r == (self.completed@.len() == self.total_chunks),
    {
        self.completed.len() as u64 == self.total_chunks
    }

    /// The event can happen.
    pub open spec fn expects(self, event: LoopEvent) -> bool {
        match event {
            LoopEvent::Ended(_) => self.running > 0,
            LoopEvent::Panicked(_) => self.running > 0,
            _ => !self.upload_completed && self.running < usize::MAX,
        }
    }

    /// `r` is what the download does; `shown` is the answer for people.
    pub open spec fn is_action(event: LoopEvent, shown: Seq<char>, r: LoopAction) -> bool {
        match event {
            LoopEvent::Ended(ChunkResult::Success(id)) => r == (LoopAction::Counted {
                chunk_id: id,
            }),
            LoopEvent::Ended(ChunkResult::Timeout(id)) => r == (LoopAction::Retry {
                chunk_id: id,
            }),
            LoopEvent::Ended(ChunkResult::Failure(id, reason)) => r matches LoopAction::Fail(w)
                && w@ == "分块 #"@ + crate::number::decimal(id as nat) + " 处理失败: "@ + reason@,
            LoopEvent::Panicked(reason) => r matches LoopAction::Fail(w) && w@
                == "任务执行出现严重错误 (panic): "@ + reason@,
            LoopEvent::Reply(
                ServerReply::ChunkReadyForDownload { chunk_id, passphrase_b64, retry },
            ) => r == (LoopAction::Fetch { chunk_id, passphrase_b64, retry }),
            LoopEvent::Reply(ServerReply::UploadCompleted) => r is NoteUploadTime,
            LoopEvent::Reply(ServerReply::Error(msg)) => r matches LoopAction::Fail(w) && w@
                == "收到服务端错误: "@ + msg@,
            LoopEvent::Reply(_) => r matches LoopAction::Warn(w) && w@
                == "收到非关键消息: "@ + shown,
            LoopEvent::Closed => r matches LoopAction::Fail(w) && w@
                == "连接中断: 服务端在任务完成前关闭了连接"@,
            LoopEvent::TimedOut => r matches LoopAction::Fail(w) && w@
                == "等待远程服务端响应超时，绝大概率为首次上传超时，请重试"@,
        }
    }

    /// Takes an event. Only a chunk that ended well is counted.
    pub fn event_loop(&mut self, event: LoopEvent, shown: &str) -> (r: LoopAction)
        requires
            old(self).expects(event),
        ensures
            EventLoop::is_action(event, shown@, r),
            final(self).total_chunks == old(self).total_chunks,
            final(self).completed@ == match r {
                LoopAction::Counted { chunk_id } => old(self).completed@.insert(chunk_id),
                _ => old(self).completed@,
            },
            final(self).upload_completed == (old(self).upload_completed || r is NoteUploadTime),
            final(self).running == match event {
                LoopEvent::Ended(_) => old(self).running - 1,
                LoopEvent::Panicked(_) => old(self).running - 1,
                _ => if r is Fetch {
                    old(self).running + 1
                } else {
                    old(self).running as int
                },
            },
    {
        match event {
            LoopEvent::Ended(result) => {
                self.running = self.running - 1;
                match result {
                    ChunkResult::Success(chunk_id) => {
                        self.completed.insert(chunk_id);
                        LoopAction::Counted { chunk_id }
                    },
                    ChunkResult::Timeout(chunk_id) => LoopAction::Retry { chunk_id },
                    ChunkResult::Failure(chunk_id, reason) => LoopAction::Fail(
                        cat4(
                            "分块 #",
                            decimal_of(chunk_id).as_str(),
                            " 处理失败: ",
                            reason.as_str(),
                        ),
                    ),
                }
            },
            LoopEvent::Panicked(reason) => {
                self.running = self.running - 1;
                LoopAction::Fail(
                    cat2("任务执行出现严重错误 (panic): ", reason.as_str()),
                )
            },
            LoopEvent::Reply(reply) => match reply {
                ServerReply::ChunkReadyForDownload { chunk_id, passphrase_b64, retry } => {
                    self.running = self.running + 1;
                    LoopAction::Fetch { chunk_id, passphrase_b64, retry }
                },
                ServerReply::UploadCompleted => {
                    self.upload_completed = true;
                    LoopAction::NoteUploadTime
                },
                ServerReply::Error(msg) => LoopAction::Fail(
                    cat2("收到服务端错误: ", msg.as_str()),
                ),
                _ => LoopAction::Warn(cat2("收到非关键消息: ", shown)),
            },
            LoopEvent::Closed => LoopAction::Fail(
                "连接中断: 服务端在任务完成前关闭了连接".to_owned(),
            ),
            LoopEvent::TimedOut => LoopAction::Fail(
                "等待远程服务端响应超时，绝大概率为首次上传超时，请重试".to_owned(),
            ),
        }
    }
}

/// A chunk that is reported twice is counted once.
pub proof fn law_chunk_counted_once(completed: Set<u64>, id: u64)
    requires
        completed.finite(),
        completed.contains(id),
    ensures
        completed.insert(id) == completed,
        completed.insert(id).len() == completed.len(),
{
    assert(completed.insert(id) =~= completed);
}

proof fn lemma_below(n: u64)
    ensures
        below(n).finite(),
        below(n).len() == n,
    decreases n,
{
    if n == 0 {
        assert(below(0) =~= Set::empty());
    } else {
        let m = (n - 1) as u64;
        lemma_below(m);
        assert(below(n) =~= below(m).insert(m));
    }
}

/// A finished download has every chunk: when only chunks of the file were counted, and
/// as many as it takes, none is missing.
pub proof fn law_finished_has_every_chunk(completed: Set<u64>, total_chunks: u64)
    requires
        completed.finite(),
        completed.subset_of(below(total_chunks)),
        completed.len() == total_chunks,
    ensures
        completed == below(total_chunks),
{
    lemma_below(total_chunks);
    vstd::set_lib::lemma_subset_equality(completed, below(total_chunks));
}

/// A file that the remote program found is taken as it was told; every other answer, and
/// none, is an error, and an error of the remote side or of the connection ends with its
/// own words.
pub proof fn law_found_file_is_taken(
    r: Result<FileInfo, String>,
    reply: Result<Option<ServerReply>, String>,
    shown: Seq<char>,
)
    requires
        is_setup_outcome(r, reply, shown),
    ensures
        r is Ok <==> (reply matches Ok(Some(ServerReply::SetupSuccess { .. }))),
        reply matches Ok(Some(ServerReply::SetupSuccess { file_name, file_size, total_chunks }))
            ==> r->Ok_0.file_name@ == file_name@ && r->Ok_0.file_size == file_size
            && r->Ok_0.total_chunks == total_chunks,
        reply matches Ok(Some(ServerReply::Error(msg))) ==> crate::text::closes_with(
            r->Err_0@,
            msg@,
        ),
        reply matches Err(reason) ==> crate::text::closes_with(r->Err_0@, reason@),
{
    if let Ok(Some(ServerReply::Error(msg))) = reply {
        crate::text::law_closes_with_its_end("服务端错误: "@, msg@);
    }
    if let Err(reason) = reply {
        crate::text::law_closes_with_its_end("通信错误: "@, reason@);
    }
}

/// A chunk that became ready is fetched, under its passphrase, and nothing else is.
pub proof fn law_ready_chunk_is_fetched(
    event: LoopEvent,
    shown: Seq<char>,
    chunk_id: u64,
    passphrase_b64: String,
    retry: bool,
    r: LoopAction,
)
    requires
        EventLoop::is_action(event, shown, r),
    ensures
        event == LoopEvent::Reply(
            ServerReply::ChunkReadyForDownload { chunk_id, passphrase_b64, retry },
        ) <==> r == (LoopAction::Fetch { chunk_id, passphrase_b64, retry }),
{
}

/// A chunk is counted just when its work went well, and asked for again just when that took
/// too long; everything that went wrong ends the download, in words that end with the
/// reason where one is known; and an answer of no account only warns.
pub proof fn law_work_counts_when_it_went_well(
    event: LoopEvent,
    shown: Seq<char>,
    chunk_id: u64,
    r: LoopAction,
)
    requires
        EventLoop::is_action(event, shown, r),
    ensures
        event == LoopEvent::Ended(ChunkResult::Success(chunk_id)) <==> r == (
        LoopAction::Counted { chunk_id }),
        event == LoopEvent::Ended(ChunkResult::Timeout(chunk_id)) <==> r == (LoopAction::Retry {
            chunk_id,
        }),
        r is NoteUploadTime <==> event == LoopEvent::Reply(ServerReply::UploadCompleted),
        r is Fail <==> event is Panicked || event is Closed || event is TimedOut || (
        event matches LoopEvent::Ended(ChunkResult::Failure(_, _))) || (event matches LoopEvent::Reply(
            ServerReply::Error(_),
        )),
        event matches LoopEvent::Panicked(reason) ==> crate::text::closes_with(
            r->Fail_0@,
            reason@,
        ),
        event matches LoopEvent::Ended(ChunkResult::Failure(_, reason))
            ==> crate::text::closes_with(r->Fail_0@, reason@),
        event matches LoopEvent::Reply(ServerReply::Error(msg)) ==> crate::text::closes_with(
            r->Fail_0@,
            msg@,
        ),
{
    if let LoopEvent::Panicked(reason) = event {
        crate::text::law_closes_with_its_end(
            "任务执行出现严重错误 (panic): "@,
            reason@,
        );
    }
    if let LoopEvent::Ended(ChunkResult::Failure(id, reason)) = event {
        crate::text::law_closes_with_its_end(
            "分块 #"@ + crate::number::decimal(id as nat) + " 处理失败: "@,
            reason@,
        );
    }
    if let LoopEvent::Reply(ServerReply::Error(msg)) = event {
        crate::text::law_closes_with_its_end("收到服务端错误: "@, msg@);
    }
}

/// A download goes on behind the chunks that are there: just the first so many count as
/// done, and each that follows counts one more.
pub proof fn law_resumes_behind_the_first_chunks(n: u64, id: u64)
    ensures
        below(n).finite(),
        below(n).len() == n,
        below(n).contains(id) <==> id < n,
        n < u64::MAX ==> below(n).insert(n) == below((n + 1) as u64),
{
    lemma_below(n);
    if n < u64::MAX {
        assert(below(n).insert(n) =~= below((n + 1) as u64));
    }
}

}
