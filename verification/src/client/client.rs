//! Fetching a file: starting the remote program, sorting its answers, and taking the
//! chunks as they become ready.
use crate::client::args::GetArgs;
use crate::client::file::{ChunkResult, DownloadSession, Metadata, Task};
use crate::client::ssh::ExecOutput;
use crate::client::ui::{init_global_download_bar, AllProgressBar};
use crate::common::interface::{
    ClientRequest, DownloadEvent, ServerResponse, SetupResponse, StartResponse,
};
use crate::common::utils::format_size;
use crate::number::decimal_of;
use crate::text::{cat2, cat3, cat4, cat5, same, trim};
use vstd::prelude::*;

verus! {

/// Where the remote program is installed.
pub const REMOTE_BIN_DIR: &'static str = "$HOME/.local/bin";

/// The remote program.
pub const REMOTE_PATH: &'static str = "$HOME/.local/bin/gmf-remote";

/// The command that shows the SHA-256 of the remote program.
pub fn check_sha_command() -> (r: String)
    ensures
        r@ == "sha256sum \""@ + REMOTE_PATH@ + "\" 2>/dev/null | cut -d' ' -f1"@,
{
    cat3("sha256sum \"", REMOTE_PATH, "\" 2>/dev/null | cut -d' ' -f1")
}

/// Whether the remote program must be installed: unless the command ran well and showed
/// the SHA-256 of the one that is wanted.
pub fn check_remote(shown: &Option<ExecOutput>, wanted_sha256: &str) -> (r: bool)
    ensures
        !r <==> (shown is Some && shown->0.exit_code == 0 && crate::text::trimmed(
            shown->0.output@,
        ) == wanted_sha256@),
{
    match shown {
        Some(out) => if out.exit_code == 0 {
            !same(trim(out.output.as_str()).as_str(), wanted_sha256)
        } else {
            true
        },
        None => true,
    }
}

/// The command that starts the remote program.
pub open spec fn launch_text(
    endpoint: Seq<char>,
    access_key_id: Seq<char>,
    secret_access_key: Seq<char>,
    verbose: bool,
    remote_path: Seq<char>,
) -> Seq<char> {
    "ENDPOINT='"@ + endpoint + "' ACCESS_KEY_ID='"@ + access_key_id + "' SECRET_ACCESS_KEY='"@
        + secret_access_key + "' LOG='"@ + (if verbose {
        "INFO"@
    } else {
        "None"@
    }) + "' "@ + remote_path
}

/// Writes the command that starts the remote program.
pub fn launch_command(
    endpoint: &str,
    access_key_id: &str,
    secret_access_key: &str,
    verbose: bool,
    remote_path: &str,
) -> (r: String)
    ensures
        r@ == launch_text(
            endpoint@,
            access_key_id@,
            secret_access_key@,
            verbose,
            remote_path@,
        ),
{
    let mut out = cat5(
        "ENDPOINT='",
        endpoint,
        "' ACCESS_KEY_ID='",
        access_key_id,
        "' SECRET_ACCESS_KEY='",
    );
    out.append(secret_access_key);
    out.append("' LOG='");
    out.append(
        if verbose {
            "INFO"
        } else {
            "None"
        },
    );
    out.append("' ");
    out.append(remote_path);
    out
}

/// How long the remote side may be silent, in nanoseconds: five seconds.
pub const HEARTBEAT_TIMEOUT_NS: u64 = 5_000_000_000;

/// Sorts the answers of the remote side: who waits for what, and when the last sign of
/// life came.
#[derive(Debug)]
pub struct Dispatcher {
    pub last_heartbeat_ns: u64,
    pub ready_waiting: bool,
    pub setup_waiting: bool,
    pub start_waiting: bool,
}

/// What happened at the dispatcher.
#[derive(Debug)]
pub enum DispatchEvent {
    Response(ServerResponse),
    /// No more answers will come.
    Closed,
    /// A second has passed.
    Tick,
}

/// What the dispatcher does.
#[derive(Debug)]
pub enum DispatchAction {
    Nothing,
    /// Tell who waits for the remote side to be there.
    SignalReady,
    /// Hand the answer to who waits for it.
    DeliverSetup(SetupResponse),
    DeliverStart(StartResponse),
    /// Hand the event to the download.
    Forward(DownloadEvent),
    /// Warn with these words.
    Warn(String),
    /// End well.
    Finish,
    /// End with these words.
    Fail(String),
}

impl Dispatcher {
    /// Starts with the clock.
    pub fn new(now_ns: u64) -> (r: Dispatcher)
        ensures
            r.last_heartbeat_ns == now_ns,
            !r.ready_waiting && !r.setup_waiting && !r.start_waiting,
    {
        Dispatcher {
            last_heartbeat_ns: now_ns,
            ready_waiting: false,
            setup_waiting: false,
            start_waiting: false,
        }
    }

    /// `r` is what the dispatcher does.
    pub open spec fn is_action(self, event: DispatchEvent, now_ns: u64, r: DispatchAction) -> bool {
        match event {
            DispatchEvent::Response(ServerResponse::Heartbeat) => if self.ready_waiting {
                r is SignalReady
            } else {
                r is Nothing
            },
            DispatchEvent::Response(ServerResponse::SetupSuccess(info)) => if self.setup_waiting {
                r == DispatchAction::DeliverSetup(info)
            } else {
                r matches DispatchAction::Warn(w) && w@ == "收到 SetupSuccess 但没有等待者"@
            },
            DispatchEvent::Response(ServerResponse::StartSuccess(info)) => if self.start_waiting {
                r == DispatchAction::DeliverStart(info)
            } else {
                r matches DispatchAction::Warn(w) && w@ == "收到 StartSuccess 但没有等待者"@
            },
            DispatchEvent::Response(
                ServerResponse::ChunkReadyForDownload { chunk_id, passphrase_b64 },
            ) => r == DispatchAction::Forward(
                DownloadEvent::ChunkReady { chunk_id, passphrase_b64 },
            ),
            DispatchEvent::Response(ServerResponse::UploadCompleted) => r
                == DispatchAction::Forward(DownloadEvent::UploadCompleted),
            DispatchEvent::Response(ServerResponse::Error(msg)) => r matches DispatchAction::Fail(
                w,
            ) && w@ == "服务端错误: "@ + msg@,
            DispatchEvent::Closed => r is Finish,
            DispatchEvent::Tick => if now_ns - self.last_heartbeat_ns > HEARTBEAT_TIMEOUT_NS {
                r matches DispatchAction::Fail(w) && w@
                    == "心跳超时: 5 秒未收到服务端心跳，连接可能已断开"@
            } else {
                r is Nothing
            },
        }
    }

    /// Takes an event. A sign of life sets the clock; who was told waits no more.
    pub fn run_dispatcher(&mut self, event: DispatchEvent, now_ns: u64) -> (r: DispatchAction)
        ensures
            old(self).is_action(event, now_ns, r),
            final(self).last_heartbeat_ns == (if event matches DispatchEvent::Response(
                ServerResponse::Heartbeat,
            ) {
                now_ns
            } else {
                old(self).last_heartbeat_ns
            }),
            final(self).ready_waiting == (old(self).ready_waiting && !(r is SignalReady)),
            final(self).setup_waiting == (old(self).setup_waiting && !(r is DeliverSetup)),
            final(self).start_waiting == (old(self).start_waiting && !(r is DeliverStart)),
            (event matches DispatchEvent::Response(ServerResponse::Heartbeat)) && old(
                self,
            ).ready_waiting ==> r is SignalReady && !final(self).ready_waiting,
            event matches DispatchEvent::Response(ServerResponse::SetupSuccess(info)) ==> old(
                self,
            ).setup_waiting ==> r == DispatchAction::DeliverSetup(info) && !final(self).setup_waiting,
            event matches DispatchEvent::Response(ServerResponse::StartSuccess(info)) ==> old(
                self,
            ).start_waiting ==> r == DispatchAction::DeliverStart(info) && !final(self).start_waiting,
    {
        match event {
            DispatchEvent::Response(response) => match response {
                ServerResponse::Heartbeat => {
                    self.last_heartbeat_ns = now_ns;
                    if self.ready_waiting {
                        self.ready_waiting = false;
                        DispatchAction::SignalReady
                    } else {
                        DispatchAction::Nothing
                    }
                },
                ServerResponse::SetupSuccess(info) => {
                    if self.setup_waiting {
                        self.setup_waiting = false;
                        DispatchAction::DeliverSetup(info)
                    } else {
                        DispatchAction::Warn("收到 SetupSuccess 但没有等待者".to_owned())
                    }
                },
                ServerResponse::StartSuccess(info) => {
                    if self.start_waiting {
                        self.start_waiting = false;
                        DispatchAction::DeliverStart(info)
                    } else {
                        DispatchAction::Warn("收到 StartSuccess 但没有等待者".to_owned())
                    }
                },
                ServerResponse::ChunkReadyForDownload { chunk_id, passphrase_b64 } => {
                    DispatchAction::Forward(DownloadEvent::ChunkReady { chunk_id, passphrase_b64 })
                },
                ServerResponse::UploadCompleted => DispatchAction::Forward(
                    DownloadEvent::UploadCompleted,
                ),
                ServerResponse::Error(msg) => DispatchAction::Fail(
                    cat2("服务端错误: ", msg.as_str()),
                ),
            },
            DispatchEvent::Closed => DispatchAction::Finish,
            DispatchEvent::Tick => {
                if now_ns > self.last_heartbeat_ns && now_ns - self.last_heartbeat_ns
                    > HEARTBEAT_TIMEOUT_NS {
                    DispatchAction::Fail(
                        "心跳超时: 5 秒未收到服务端心跳，连接可能已断开".to_owned(),
                    )
                } else {
                    DispatchAction::Nothing
                }
            },
        }
    }

    /// Someone waits for the remote side to be there.
    pub fn wait_ready(&mut self)
        ensures
            *final(self) == (Dispatcher { ready_waiting: true, ..*old(self) }),
    {
        self.ready_waiting = true;
    }

    /// Someone waits for the answer to a setup.
    pub fn wait_setup(&mut self)
        ensures
            *final(self) == (Dispatcher { setup_waiting: true, ..*old(self) }),
    {
        self.setup_waiting = true;
    }

    /// Someone waits for the answer to a start.
    pub fn wait_start(&mut self)
        ensures
            *final(self) == (Dispatcher { start_waiting: true, ..*old(self) }),
    {
        self.start_waiting = true;
    }
}

/// The words about a file that was found.
pub fn setup_notice(info: &SetupResponse) -> (r: String)
    ensures
        r@ == "文件名称: "@ + info.file_name@ + " (大小: "@ + crate::common::utils::size_text(
            info.file_size as nat,
        ) + ")"@,
{
    cat5(
        "文件名称: ",
        info.file_name.as_str(),
        " (大小: ",
        format_size(info.file_size).as_str(),
        ")",
    )
}

/// The client: what it was told to fetch, who waits for the remote side, and the download
/// once it has begun.
pub struct GMFClient {
    pub args: GetArgs,
    pub dispatcher: Dispatcher,
    pub resume_from_chunk_id: u64,
    pub download_session: Option<DownloadSession>,
}

/// What is remembered of a download belongs to the file `info` under these arguments.
/// Paths count by their components.
pub open spec fn is_metadata_of(
    m: Metadata,
    info: SetupResponse,
    args: GetArgs,
    local_path: Seq<char>,
) -> bool {
    &&& m.name@ == info.file_name@
    &&& m.size == info.file_size
    &&& m.xxh3@ == info.xxh3@
    &&& crate::path::is_same_path(m.local_path@, local_path)
    &&& crate::path::is_same_path(m.remote_path@, args.path@)
    &&& m.chunk_size == args.chunk_size
    &&& m.total_chunks == info.total_chunks
}

impl GMFClient {
    /// A client that has not asked for anything yet.
    pub fn new(args: GetArgs, now_ns: u64) -> (r: GMFClient)
        ensures
            r.args == args,
            r.resume_from_chunk_id == 0,
            r.download_session is None,
            r.dispatcher == (Dispatcher {
                last_heartbeat_ns: now_ns,
                ready_waiting: false,
                setup_waiting: false,
                start_waiting: false,
            }),
    {
        GMFClient {
            args,
            dispatcher: Dispatcher::new(now_ns),
            resume_from_chunk_id: 0,
            download_session: None,
        }
    }

    /// Asks the remote side to look at the file, and waits for its answer.
    pub fn request_setup(&mut self) -> (r: ClientRequest)
        ensures
            r matches ClientRequest::Setup { path, chunk_size } && path@ == old(self).args.path@
                && chunk_size == old(self).args.chunk_size,
            *final(self) == (GMFClient {
                dispatcher: Dispatcher { setup_waiting: true, ..old(self).dispatcher },
                ..*old(self)
            }),
    {
        self.dispatcher.wait_setup();
        ClientRequest::Setup { path: self.args.path.clone(), chunk_size: self.args.chunk_size }
    }

    /// Begins the download of the file that the remote side found: a new one, or the one
    /// that `stored` remembers. The words about the file come back. A download that is
    /// remembered for another file is refused, and so is a second progress bar.
    pub fn setup(
        &mut self,
        info: &SetupResponse,
        local_path: &str,
        stored: Option<Metadata>,
        metadata_path: &str,
        ui: &mut AllProgressBar,
    ) -> (r: Result<String, String>)
        requires
            stored is None ==> info.total_chunks <= crate::outside::bits::max_bits(),
        ensures
            r is Ok <==> (stored is None || is_metadata_of(
                stored->0,
                *info,
                old(self).args,
                local_path@,
            )) && old(ui).download is None,
            r matches Ok(words) ==> words@ == "文件名称: "@ + info.file_name@ + " (大小: "@
                + crate::common::utils::size_text(info.file_size as nat) + ")"@,
            r matches Err(e) ==> e@ == if stored is None || is_metadata_of(
                stored->0,
                *info,
                old(self).args,
                local_path@,
            ) {
                "下载进度条已经初始化过了"@
            } else {
                "元数据文件 '"@ + metadata_path@
                    + "' 内容与当前下载任务不匹配，可能是旧的或损坏的文件"@
            },
            r is Err ==> *final(self) == *old(self) && *final(ui) == *old(ui),
            r is Ok ==> {
                &&& final(self).args == old(self).args
                &&& final(self).dispatcher == old(self).dispatcher
                &&& final(self).download_session is Some
                &&& is_metadata_of(
                    final(self).download_session->0.metadata,
                    *info,
                    old(self).args,
                    local_path@,
                )
                &&& match stored {
                    Some(m) => final(self).download_session->0.metadata == m,
                    None => final(self).download_session->0.metadata.local_path@ == local_path@
                        && final(self).download_session->0.metadata.remote_path@ == old(
                        self,
                    ).args.path@ && final(self).download_session->0.metadata.chunk_bitmap@
                        == Seq::new(info.total_chunks as nat, |i: int| false),
                }
                &&& (stored is None || stored->0.is_sound())
                    ==> final(self).download_session->0.metadata.is_sound()
                &&& final(self).resume_from_chunk_id == crate::outside::bits::count_set(
                    final(self).download_session->0.metadata.chunk_bitmap@,
                )
                &&& *final(ui) == (AllProgressBar {
                    download: Some(
                        crate::client::bar::Bar {
                            len: info.total_chunks,
                            position: final(self).resume_from_chunk_id,
                            ended: false,
                        },
                    ),
                    ..*old(ui)
                })
            },
    {
        let task = Task {
            name: info.file_name.clone(),
            size: info.file_size,
            xxh3: info.xxh3.clone(),
            local_path: local_path.to_owned(),
            remote_path: self.args.path.clone(),
            chunk_size: self.args.chunk_size,
            total_chunks: info.total_chunks,
        };
        let words = setup_notice(info);
        let (session, completed_chunks): (DownloadSession, u64) = match DownloadSession::new(
            stored,
            task,
            metadata_path,
        ) {
            Ok(begun) => begun,
            Err(e) => return Err(e),
        };
        match init_global_download_bar(ui, info.total_chunks, completed_chunks) {
            Ok(_) => {},
            Err(e) => return Err(e),
        }
        self.resume_from_chunk_id = completed_chunks;
        self.download_session = Some(session);
        Ok(words)
    }

    /// Asks the remote side to send the chunks that are not done, and waits for its answer.
    /// The download must have begun.
    pub fn start(&mut self) -> (r: ClientRequest)
        requires
            old(self).download_session is Some,
        ensures
            r matches ClientRequest::Start { chunk_bitmap } && chunk_bitmap@ == old(
                self,
            ).download_session->0.metadata.chunk_bitmap@ && chunk_bitmap.is_clean(),
            *final(self) == (GMFClient {
                dispatcher: Dispatcher { start_waiting: true, ..old(self).dispatcher },
                ..*old(self)
            }),
    {
        self.dispatcher.wait_start();
        let session = self.download_session.as_ref().unwrap();
        ClientRequest::Start { chunk_bitmap: session.metadata.chunk_bitmap.clone() }
    }
}

/// The words about what is going to come.
pub fn start_notice(info: &StartResponse) -> (r: String)
    ensures
        r@ == "服务端确认，需要传输的大小为 "@ + crate::common::utils::size_text(
            info.remaining_size as nat,
        ) + " ，开始接收分块信息..."@,
{
    cat3(
        "服务端确认，需要传输的大小为 ",
        format_size(info.remaining_size).as_str(),
        " ，开始接收分块信息...",
    )
}

/// Only what is missing is sent again: the remote side reads from the client's request
/// just which of the file's chunks are done.
pub proof fn law_request_says_what_is_done(
    bitmap: crate::common::bitmap::ChunkBitmap,
    text: Seq<char>,
    total_chunks: u64,
)
    requires
        bitmap.is_clean(),
        crate::common::bitmap::is_text_of(text, bitmap.all_bits()),
        total_chunks <= bitmap@.len(),
    ensures
        crate::outside::encoding::base64_data(text) matches Ok(raw)
            && crate::remote::server::fitted(crate::common::bitmap::raw_bits(raw), total_chunks)
            == bitmap@.take(total_chunks as int),
{
    crate::common::bitmap::law_written_bitmap_is_read(bitmap, text);
    let read = crate::common::bitmap::raw_bits(
        crate::outside::encoding::base64_data(text)->Ok_0,
    );
    assert(read.take(total_chunks as int) =~= bitmap@.take(total_chunks as int));
    if total_chunks >= read.len() {
        assert(read.take(total_chunks as int) =~= read);
    }
}

/// Takes the chunks of a file as they become ready.
#[derive(Debug)]
pub struct DownloadLoop {
    pub total_chunks: u64,
    pub completed_chunks: u64,
    /// Whether the remote side has sent everything.
    pub upload_completed: bool,
    /// How many chunks are being fetched.
    pub running: usize,
}

/// What happened in the download.
#[derive(Debug)]
pub enum LoopEvent {
    /// The work on a chunk ended.
    Ended(ChunkResult),
    /// The work on a chunk broke off, with these words.
    Panicked(String),
    Incoming(DownloadEvent),
}

/// What the download does.
#[derive(Debug)]
pub enum LoopAction {
    /// One more chunk is done.
    Progress,
    /// Ask for a chunk again.
    Retry { chunk_id: u64 },
    /// Fetch a chunk.
    Fetch { chunk_id: u64, passphrase_b64: String },
    /// A chunk that is done came again.
    Skip { chunk_id: u64 },
    /// Note how long the remote side took.
    NoteUploadTime,
    /// End with these words.
    Fail(String),
}

impl DownloadLoop {
    /// Starts with what is done already.
    pub fn new(session: &DownloadSession) -> (r: DownloadLoop)
        ensures
            r.total_chunks == session.metadata.total_chunks,
            r.completed_chunks == crate::outside::bits::count_set(session.metadata.chunk_bitmap@),
            !r.upload_completed,
            r.running == 0,
    {
        DownloadLoop {
            total_chunks: session.total_chunks(),
            completed_chunks: session.completed_chunks(),
            upload_completed: false,
            running: 0,
        }
    }

    /// Whether every chunk is done.
    pub fn is_finished(&self) -> (r: bool)
        ensures
            r == (self.completed_chunks == self.total_chunks),
    {
        self.completed_chunks == self.total_chunks
    }

    /// Whether the download still listens to the remote side.
    pub fn listens(&self) -> (r: bool)
        ensures
            r == !self.upload_completed,
    {
        !self.upload_completed
    }

    /// The event can happen.
    pub open spec fn expects(self, session: DownloadSession, event: LoopEvent) -> bool {
        match event {
            LoopEvent::Ended(_) => self.running > 0,
            LoopEvent::Panicked(_) => self.running > 0,
            LoopEvent::Incoming(DownloadEvent::ChunkReady { chunk_id, .. }) => {
                &&& !self.upload_completed
                &&& chunk_id < session.metadata.chunk_bitmap@.len()
                &&& self.running < usize::MAX
            },
            LoopEvent::Incoming(DownloadEvent::UploadCompleted) => !self.upload_completed,
        }
    }

    /// `r` is what the download does.
    pub open spec fn is_action(session: DownloadSession, event: LoopEvent, r: LoopAction) -> bool {
        match event {
            LoopEvent::Ended(ChunkResult::Success(_)) => r is Progress,
            LoopEvent::Ended(ChunkResult::Timeout(id)) => r == (LoopAction::Retry {
                chunk_id: id,
            }),
            LoopEvent::Ended(ChunkResult::Failure(id, reason)) => r matches LoopAction::Fail(w)
                && w@ == "分块 #"@ + crate::number::decimal(id as nat) + " 处理失败: "@ + reason@,
            LoopEvent::Panicked(reason) => r matches LoopAction::Fail(w) && w@
                == "任务执行出现严重错误 (panic): "@ + reason@,
            LoopEvent::Incoming(DownloadEvent::ChunkReady { chunk_id, passphrase_b64 }) => if session.metadata.chunk_bitmap@[chunk_id as int] {
                r == (LoopAction::Skip { chunk_id })
            } else {
                r == (LoopAction::Fetch { chunk_id, passphrase_b64 })
            },
            LoopEvent::Incoming(DownloadEvent::UploadCompleted) => r is NoteUploadTime,
        }
    }

    /// Takes an event. A chunk that ended well brings the count of done chunks up to what
    /// the session holds.
    pub fn download_loop(&mut self, session: &DownloadSession, event: LoopEvent) -> (r: LoopAction)
        requires
            old(self).expects(*session, event),
        ensures
            DownloadLoop::is_action(*session, event, r),
            final(self).total_chunks == old(self).total_chunks,
            final(self).completed_chunks == if r is Progress {
                crate::outside::bits::count_set(session.metadata.chunk_bitmap@)
            } else {
                old(self).completed_chunks as nat
            },
            final(self).upload_completed == (old(self).upload_completed || r is NoteUploadTime),
            final(self).running == match event {
                LoopEvent::Incoming(_) => if r is Fetch {
                    old(self).running + 1
                } else {
                    old(self).running as int
                },
                _ => old(self).running - 1,
            },
    {
        match event {
            LoopEvent::Ended(result) => {
                self.running = self.running - 1;
                match result {
                    ChunkResult::Success(_) => {
                        self.completed_chunks = session.completed_chunks();
                        LoopAction::Progress
                    },
                    ChunkResult::Timeout(chunk_id) => LoopAction::Retry { chunk_id },
                    ChunkResult::Failure(chunk_id, reason) => LoopAction::Fail(
                        cat4(
                            "分块 #",
                            decimal_of(chunk_id).as_str(),
                            " 处理失败: ",
                            reason.as_str(),
                        ),
                    ),
                }
            },
            LoopEvent::Panicked(reason) => {
                self.running = self.running - 1;
                LoopAction::Fail(
                    cat2("任务执行出现严重错误 (panic): ", reason.as_str()),
                )
            },
            LoopEvent::Incoming(DownloadEvent::ChunkReady { chunk_id, passphrase_b64 }) => {
                if session.is_completed(chunk_id) {
                    LoopAction::Skip { chunk_id }
                } else {
                    self.running = self.running + 1;
                    LoopAction::Fetch { chunk_id, passphrase_b64 }
                }
            },
            LoopEvent::Incoming(DownloadEvent::UploadCompleted) => {
                self.upload_completed = true;
                LoopAction::NoteUploadTime
            },
        }
    }
}

/// A chunk that is done is never fetched again.
pub proof fn law_done_chunk_not_fetched(
    session: DownloadSession,
    event: LoopEvent,
    r: LoopAction,
    chunk_id: u64,
)
    requires
        DownloadLoop::is_action(session, event, r),
        chunk_id < session.metadata.chunk_bitmap@.len(),
        session.metadata.chunk_bitmap@[chunk_id as int],
    ensures
        r matches LoopAction::Fetch { chunk_id: id, .. } ==> id != chunk_id,
{
}

/// A loop that has counted as many chunks as the file takes has every one of them: the
/// session can be finished, and each chunk of the file is done.
pub proof fn law_finished_loop_has_every_chunk(l: DownloadLoop, session: DownloadSession)
    requires
        l.total_chunks == session.metadata.total_chunks,
        l.completed_chunks == crate::outside::bits::count_set(session.metadata.chunk_bitmap@),
        l.completed_chunks == l.total_chunks,
        session.metadata.is_sound(),
    ensures
        crate::outside::bits::count_set(session.metadata.chunk_bitmap@)
            == session.metadata.total_chunks,
        forall|id: int|
            0 <= id < session.metadata.total_chunks
                ==> #[trigger] session.metadata.chunk_bitmap@[id],
{
    let bits = session.metadata.chunk_bitmap@;
    let n = session.metadata.total_chunks as int;
    crate::common::bitmap::law_only_marks_count(bits, n as nat);
    crate::common::bitmap::law_all_done_by_count(bits.take(n));
    assert forall|id: int| 0 <= id < n implies #[trigger] bits[id] by {
        assert(bits.take(n)[id]);
    }
}

/// An answer that is waited for reaches who waits for it: as it came, whatever else the
/// dispatcher waits for and whatever the clock shows.
pub proof fn law_awaited_answer_is_delivered(
    d: Dispatcher,
    setup: SetupResponse,
    start: StartResponse,
    now_ns: u64,
    r: DispatchAction,
)
    ensures
        d.ready_waiting && d.is_action(
            DispatchEvent::Response(ServerResponse::Heartbeat),
            now_ns,
            r,
        ) ==> r is SignalReady,
        d.setup_waiting && d.is_action(
            DispatchEvent::Response(ServerResponse::SetupSuccess(setup)),
            now_ns,
            r,
        ) ==> r == DispatchAction::DeliverSetup(setup),
        d.start_waiting && d.is_action(
            DispatchEvent::Response(ServerResponse::StartSuccess(start)),
            now_ns,
            r,
        ) ==> r == DispatchAction::DeliverStart(start),
{
}

/// Nothing is made up: who waits is told only what the remote side said, and only when it
/// is waited for; the download hears only of chunks that the remote side announced; and an
/// answer that nobody waits for, or a sign of life, ends nothing.
pub proof fn law_only_what_was_said_is_handed_on(
    d: Dispatcher,
    event: DispatchEvent,
    now_ns: u64,
    r: DispatchAction,
)
    requires
        d.is_action(event, now_ns, r),
    ensures
        r is SignalReady ==> d.ready_waiting && event == DispatchEvent::Response(
            ServerResponse::Heartbeat,
        ),
        r matches DispatchAction::DeliverSetup(info) ==> d.setup_waiting && event
            == DispatchEvent::Response(ServerResponse::SetupSuccess(info)),
        r matches DispatchAction::DeliverStart(info) ==> d.start_waiting && event
            == DispatchEvent::Response(ServerResponse::StartSuccess(info)),
        r matches DispatchAction::Forward(
            DownloadEvent::ChunkReady { chunk_id, passphrase_b64 },
        ) ==> event == DispatchEvent::Response(
            ServerResponse::ChunkReadyForDownload { chunk_id, passphrase_b64 },
        ),
        r == DispatchAction::Forward(DownloadEvent::UploadCompleted) ==> event
            == DispatchEvent::Response(ServerResponse::UploadCompleted),
        r is Finish <==> event is Closed,
        r is Fail ==> event is Tick || (event matches DispatchEvent::Response(
            ServerResponse::Error(_),
        )),
        r is Warn ==> (event matches DispatchEvent::Response(ServerResponse::SetupSuccess(_)))
            || (event matches DispatchEvent::Response(ServerResponse::StartSuccess(_))),
{
}

/// What the remote side says of chunks reaches the download, whoever waits for what and
/// however late it is: each chunk with its number and passphrase, and that all were sent.
pub proof fn law_every_chunk_is_handed_on(
    d: Dispatcher,
    chunk_id: u64,
    passphrase_b64: String,
    now_ns: u64,
    r: DispatchAction,
)
    ensures
        d.is_action(
            DispatchEvent::Response(
                ServerResponse::ChunkReadyForDownload { chunk_id, passphrase_b64 },
            ),
            now_ns,
            r,
        ) ==> r == DispatchAction::Forward(
            DownloadEvent::ChunkReady { chunk_id, passphrase_b64 },
        ),
        d.is_action(DispatchEvent::Response(ServerResponse::UploadCompleted), now_ns, r) ==> r
            == DispatchAction::Forward(DownloadEvent::UploadCompleted),
{
}

/// Silence is noticed: when more than five seconds have passed since the last sign of life,
/// the next tick ends the conversation with a failure, and before that no tick does
/// anything.
pub proof fn law_silence_is_noticed(d: Dispatcher, now_ns: u64, r: DispatchAction)
    requires
        d.is_action(DispatchEvent::Tick, now_ns, r),
    ensures
        r is Fail <==> now_ns > d.last_heartbeat_ns + 5 * 1_000_000_000,
        !(r is Fail) ==> r is Nothing,
{
}

/// An error of the remote side ends the conversation, with words that end with its own.
pub proof fn law_remote_error_is_told(d: Dispatcher, msg: String, now_ns: u64, r: DispatchAction)
    requires
        d.is_action(DispatchEvent::Response(ServerResponse::Error(msg)), now_ns, r),
    ensures
        r matches DispatchAction::Fail(words) && words@.len() >= msg@.len() && words@.skip(
            words@.len() - msg@.len(),
        ) == msg@,
{
    let words = r->Fail_0;
    assert(words@.skip(words@.len() - msg@.len()) =~= msg@);
}

/// A chunk of the file that became ready and is not done is fetched, under the passphrase
/// that came with it; and one that is fetched became ready just now.
pub proof fn law_missing_chunk_is_fetched(
    session: DownloadSession,
    event: LoopEvent,
    chunk_id: u64,
    passphrase_b64: String,
    r: LoopAction,
)
    requires
        DownloadLoop::is_action(session, event, r),
        chunk_id < session.metadata.chunk_bitmap@.len(),
        !session.metadata.chunk_bitmap@[chunk_id as int],
    ensures
        event == LoopEvent::Incoming(DownloadEvent::ChunkReady { chunk_id, passphrase_b64 }) <==> r
            == (LoopAction::Fetch { chunk_id, passphrase_b64 }),
{
}

/// Work that ended is taken as it ended: work that went well is progress, work that took
/// too long is asked for again by its number, and work that failed or broke off ends the
/// download with words that end with the reason. Nothing else ends it.
pub proof fn law_ended_work_is_taken_as_it_ended(
    session: DownloadSession,
    event: LoopEvent,
    r: LoopAction,
)
    requires
        DownloadLoop::is_action(session, event, r),
    ensures
        r is Progress <==> (event matches LoopEvent::Ended(ChunkResult::Success(_))),
        event matches LoopEvent::Ended(ChunkResult::Timeout(id)) ==> r == (LoopAction::Retry {
            chunk_id: id,
        }),
        r is Retry ==> (event matches LoopEvent::Ended(ChunkResult::Timeout(_))),
        r is Fail <==> event is Panicked || (event matches LoopEvent::Ended(
            ChunkResult::Failure(_, _),
        )),
        event matches LoopEvent::Panicked(reason) ==> (r->Fail_0@).len() >= reason@.len()
            && r->Fail_0@.skip(r->Fail_0@.len() - reason@.len()) == reason@,
        event matches LoopEvent::Ended(ChunkResult::Failure(_, reason)) ==> (r->Fail_0@).len()
            >= reason@.len() && r->Fail_0@.skip(r->Fail_0@.len() - reason@.len()) == reason@,
        r is NoteUploadTime <==> event == LoopEvent::Incoming(DownloadEvent::UploadCompleted),
{
    if r is Fail {
        let words = r->Fail_0@;
        let reason = match event {
            LoopEvent::Panicked(w) => w@,
            _ => event->Ended_0->Failure_1@,
        };
        assert(words.skip(words.len() - reason.len()) =~= reason);
    }
}

/// What is remembered goes on just when it is for the file that the remote side found:
/// to two files found, under two sets of arguments, only when they do not differ.
pub proof fn law_session_is_for_one_file(
    m: Metadata,
    a: SetupResponse,
    b: SetupResponse,
    args_a: GetArgs,
    args_b: GetArgs,
    path_a: Seq<char>,
    path_b: Seq<char>,
)
    requires
        is_metadata_of(m, a, args_a, path_a),
        is_metadata_of(m, b, args_b, path_b),
    ensures
        a.file_name@ == b.file_name@,
        a.file_size == b.file_size,
        a.xxh3@ == b.xxh3@,
        a.total_chunks == b.total_chunks,
        args_a.chunk_size == args_b.chunk_size,
        crate::path::is_same_path(path_a, path_b),
        crate::path::is_same_path(args_a.path@, args_b.path@),
{
}

/// A download is remembered for the file that it was begun for, whatever file that is.
pub proof fn law_begun_download_is_known_again(
    m: Metadata,
    info: SetupResponse,
    args: GetArgs,
    local_path: Seq<char>,
    task: Task,
)
    requires
        m.is_of(task),
        task.name@ == info.file_name@,
        task.size == info.file_size,
        task.xxh3@ == info.xxh3@,
        task.total_chunks == info.total_chunks,
        task.chunk_size == args.chunk_size,
        task.remote_path@ == args.path@,
        task.local_path@ == local_path,
    ensures
        is_metadata_of(m, info, args, local_path),
{
}

/// The command that starts the remote program gives it the endpoint and the keys of the
/// store, each between quotes behind the name under which the program looks for it, and
/// runs the program behind them.
pub proof fn law_launch_hands_over_the_store(
    endpoint: Seq<char>,
    access_key_id: Seq<char>,
    secret_access_key: Seq<char>,
    verbose: bool,
    remote_path: Seq<char>,
)
    ensures
        ({
            let text = launch_text(
                endpoint,
                access_key_id,
                secret_access_key,
                verbose,
                remote_path,
            );
            &&& crate::text::occurs_at(text, "ENDPOINT='"@ + endpoint + "' "@, 0)
            &&& crate::text::occurs(text, " ACCESS_KEY_ID='"@ + access_key_id + "' "@)
            &&& crate::text::occurs(text, " SECRET_ACCESS_KEY='"@ + secret_access_key + "' "@)
            &&& crate::text::occurs_at(
                text,
                "' "@ + remote_path,
                text.len() - remote_path.len() - 2,
            )
        }),
{
    let text = launch_text(endpoint, access_key_id, secret_access_key, verbose, remote_path);
    reveal_strlit("ENDPOINT='");
    reveal_strlit("' ACCESS_KEY_ID='");
    reveal_strlit(" ACCESS_KEY_ID='");
    reveal_strlit("' SECRET_ACCESS_KEY='");
    reveal_strlit(" SECRET_ACCESS_KEY='");
    reveal_strlit("' LOG='");
    reveal_strlit("' ");
    let a = (10 + endpoint.len() + 1) as int;
    let b = a + 16 + access_key_id.len() + 1;
    let n1 = "ENDPOINT='"@ + endpoint + "' "@;
    let n2 = " ACCESS_KEY_ID='"@ + access_key_id + "' "@;
    let n3 = " SECRET_ACCESS_KEY='"@ + secret_access_key + "' "@;
    let n4 = "' "@ + remote_path;
    assert(text.subrange(0, n1.len() as int) =~= n1);
    assert(text.subrange(a, a + n2.len()) =~= n2);
    assert(crate::text::occurs_at(text, n2, a));
    assert(text.subrange(b, b + n3.len()) =~= n3);
    assert(crate::text::occurs_at(text, n3, b));
    let c = text.len() - n4.len();
    assert(text.subrange(c, c + n4.len()) =~= n4);
}

}
