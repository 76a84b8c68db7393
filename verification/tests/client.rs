use gmf::client::args::{Command, GetArgs};
use gmf::client::client::{
    check_remote, check_sha_command, launch_command, setup_notice, start_notice, DispatchAction,
    DispatchEvent, DownloadLoop, GMFClient, LoopAction, LoopEvent,
};
use gmf::client::file::{ChunkResult, DownloadSession, Metadata, Task};
use gmf::client::ssh::ExecOutput;
use gmf::client::ui::{init_global_logger, AllProgressBar, LogLevel};
use gmf::common::interface::{
    ClientRequest, DownloadEvent, ServerResponse, SetupResponse, StartResponse,
};

fn info() -> SetupResponse {
    SetupResponse {
        file_name: "a.bin".to_string(),
        file_size: 25,
        total_chunks: 3,
        xxh3: "ab".to_string(),
    }
}

fn args() -> GetArgs {
    GetArgs { path: "~/a.bin".to_string(), chunk_size: 10, verbose: false }
}

fn task() -> Task {
    Task {
        name: "a.bin".to_string(),
        size: 25,
        xxh3: "ab".to_string(),
        local_path: "/here/a.bin".to_string(),
        remote_path: "~/a.bin".to_string(),
        chunk_size: 10,
        total_chunks: 3,
    }
}

#[test]
fn installing_the_remote_program() {
    assert_eq!(
        check_sha_command(),
        "sha256sum \"$HOME/.local/bin/gmf-remote\" 2>/dev/null | cut -d' ' -f1"
    );
    let out = |code, text: &str| Some(ExecOutput { exit_code: code, output: text.to_string() });
    assert!(!check_remote(&out(0, "abc\n"), "abc"));
    assert!(check_remote(&out(0, "abd\n"), "abc"));
    assert!(check_remote(&out(1, "abc"), "abc"));
    assert!(check_remote(&None, "abc"));
}

#[test]
fn starting_the_remote_program() {
    assert_eq!(
        launch_command("https://e", "id", "key", true, "$HOME/x"),
        "ENDPOINT='https://e' ACCESS_KEY_ID='id' SECRET_ACCESS_KEY='key' LOG='INFO' $HOME/x"
    );
    assert_eq!(
        launch_command("e", "i", "k", false, "p"),
        "ENDPOINT='e' ACCESS_KEY_ID='i' SECRET_ACCESS_KEY='k' LOG='None' p"
    );
}

#[test]
fn command_line_arguments() {
    let get = Command::Get { path: "x".to_string(), verbose: true }.get_args().unwrap();
    assert_eq!((get.path.as_str(), get.chunk_size, get.verbose), ("x", 10_485_760, true));
    assert!(Command::Login.get_args().is_none());
}

#[test]
fn answers_go_to_who_waits() {
    let mut c = GMFClient::new(args(), 0);
    let beat = || DispatchEvent::Response(ServerResponse::Heartbeat);
    assert!(matches!(c.dispatcher.run_dispatcher(beat(), 1), DispatchAction::Nothing));
    c.dispatcher.wait_ready();
    assert!(matches!(c.dispatcher.run_dispatcher(beat(), 2), DispatchAction::SignalReady));
    assert!(matches!(c.dispatcher.run_dispatcher(beat(), 3), DispatchAction::Nothing));
    let answer = || DispatchEvent::Response(ServerResponse::SetupSuccess(info()));
    match c.dispatcher.run_dispatcher(answer(), 4) {
        DispatchAction::Warn(w) => assert_eq!(w, "收到 SetupSuccess 但没有等待者"),
        other => panic!("{other:?}"),
    }
    match c.request_setup() {
        ClientRequest::Setup { path, chunk_size } => {
            assert_eq!((path.as_str(), chunk_size), ("~/a.bin", 10));
        }
        _ => panic!("not a setup"),
    }
    match c.dispatcher.run_dispatcher(answer(), 5) {
        DispatchAction::DeliverSetup(i) => assert_eq!(i.total_chunks, 3),
        other => panic!("{other:?}"),
    }
}

#[test]
fn chunks_and_errors_are_passed_on() {
    let mut c = GMFClient::new(args(), 0);
    let ready = ServerResponse::ChunkReadyForDownload {
        chunk_id: 2,
        passphrase_b64: "p".to_string(),
    };
    match c.dispatcher.run_dispatcher(DispatchEvent::Response(ready), 0) {
        DispatchAction::Forward(DownloadEvent::ChunkReady { chunk_id, passphrase_b64 }) => {
            assert_eq!((chunk_id, passphrase_b64.as_str()), (2, "p"));
        }
        other => panic!("{other:?}"),
    }
    let done = DispatchEvent::Response(ServerResponse::UploadCompleted);
    assert!(matches!(
        c.dispatcher.run_dispatcher(done, 0),
        DispatchAction::Forward(DownloadEvent::UploadCompleted)
    ));
    let bad = DispatchEvent::Response(ServerResponse::Error("no".to_string()));
    match c.dispatcher.run_dispatcher(bad, 0) {
        DispatchAction::Fail(w) => assert_eq!(w, "服务端错误: no"),
        other => panic!("{other:?}"),
    }
    let begun = DispatchEvent::Response(ServerResponse::StartSuccess(StartResponse {
        remaining_size: 1,
    }));
    match c.dispatcher.run_dispatcher(begun, 0) {
        DispatchAction::Warn(w) => assert_eq!(w, "收到 StartSuccess 但没有等待者"),
        other => panic!("{other:?}"),
    }
    assert!(matches!(
        c.dispatcher.run_dispatcher(DispatchEvent::Closed, 0),
        DispatchAction::Finish
    ));
}

#[test]
fn silence_is_noticed_after_five_seconds() {
    let mut c = GMFClient::new(args(), 1_000);
    let tick = |c: &mut GMFClient, now| c.dispatcher.run_dispatcher(DispatchEvent::Tick, now);
    assert!(matches!(tick(&mut c, 5_000_001_000), DispatchAction::Nothing));
    match tick(&mut c, 5_000_001_001) {
        DispatchAction::Fail(w) => {
            assert_eq!(w, "心跳超时: 5 秒未收到服务端心跳，连接可能已断开");
        }
        other => panic!("{other:?}"),
    }
    let beat = DispatchEvent::Response(ServerResponse::Heartbeat);
    c.dispatcher.run_dispatcher(beat, 6_000_000_000);
    assert!(matches!(tick(&mut c, 10_000_000_000), DispatchAction::Nothing));
    assert!(matches!(tick(&mut c, 0), DispatchAction::Nothing));
}

#[test]
fn a_download_begins() {
    let mut ui = AllProgressBar::new(LogLevel::Info);
    let mut c = GMFClient::new(args(), 0);
    let words = c.setup(&info(), "/here/a.bin", None, "/m.json", &mut ui).unwrap();
    assert_eq!(words, "文件名称: a.bin (大小: 25.00 B)");
    assert_eq!(c.resume_from_chunk_id, 0);
    assert_eq!(ui.download.unwrap().len, 3);
    match c.start() {
        ClientRequest::Start { chunk_bitmap } => {
            assert_eq!(chunk_bitmap.pending_ids(), [0, 1, 2]);
        }
        _ => panic!("not a start"),
    }
    assert!(c.dispatcher.start_waiting);
    let again = c.setup(&info(), "/here/a.bin", None, "/m.json", &mut ui);
    assert_eq!(again.unwrap_err(), "下载进度条已经初始化过了");
}

#[test]
fn a_download_goes_on() {
    let mut ui = AllProgressBar::new(LogLevel::Info);
    let mut c = GMFClient::new(args(), 0);
    let mut stored = Metadata::new(task());
    stored.chunk_bitmap.mark_completed(1);
    c.setup(&info(), "/here/a.bin", Some(stored), "/m.json", &mut ui).unwrap();
    assert_eq!(c.resume_from_chunk_id, 1);
    assert_eq!(ui.download.unwrap().position, 1);
    match c.start() {
        ClientRequest::Start { chunk_bitmap } => assert_eq!(chunk_bitmap.pending_ids(), [0, 2]),
        _ => panic!("not a start"),
    }
}

#[test]
fn a_download_of_another_file_is_refused() {
    let mut ui = AllProgressBar::new(LogLevel::Info);
    let mut c = GMFClient::new(args(), 0);
    let stored = Metadata::new(task());
    let r = c.setup(&info(), "/elsewhere/a.bin", Some(stored), "/m.json", &mut ui);
    assert_eq!(
        r.unwrap_err(),
        "元数据文件 '/m.json' 内容与当前下载任务不匹配，可能是旧的或损坏的文件"
    );
    assert!(c.download_session.is_none());
    assert!(ui.download.is_none());
}

#[test]
fn words_about_a_download() {
    assert_eq!(setup_notice(&info()), "文件名称: a.bin (大小: 25.00 B)");
    assert_eq!(
        start_notice(&StartResponse { remaining_size: 2048 }),
        "服务端确认，需要传输的大小为 2.00 KB ，开始接收分块信息..."
    );
    let mut global = None;
    assert!(init_global_logger(&mut global, true).is_ok());
}

#[test]
fn chunks_are_fetched_until_all_are_done() {
    let (mut session, _) = DownloadSession::new(None, task(), "/m").unwrap();
    let mut l = DownloadLoop::new(&session);
    assert!(!l.is_finished() && l.listens());
    for id in 0..3u64 {
        let ready = DownloadEvent::ChunkReady { chunk_id: id, passphrase_b64: "p".to_string() };
        match l.download_loop(&session, LoopEvent::Incoming(ready)) {
            LoopAction::Fetch { chunk_id, passphrase_b64 } => {
                assert_eq!((chunk_id, passphrase_b64.as_str()), (id, "p"));
            }
            other => panic!("{other:?}"),
        }
    }
    assert_eq!(l.running, 3);
    for id in [2u64, 0, 1] {
        let result = session.chunk_written(id);
        let action = l.download_loop(&session, LoopEvent::Ended(result));
        assert!(matches!(action, LoopAction::Progress));
    }
    assert!(l.is_finished());
    assert_eq!(l.running, 0);
    assert!(session.finalize().is_ok());
    let again = DownloadEvent::ChunkReady { chunk_id: 1, passphrase_b64: String::new() };
    assert!(matches!(
        l.download_loop(&session, LoopEvent::Incoming(again)),
        LoopAction::Skip { chunk_id: 1 }
    ));
    let done = LoopEvent::Incoming(DownloadEvent::UploadCompleted);
    assert!(matches!(l.download_loop(&session, done), LoopAction::NoteUploadTime));
    assert!(!l.listens());
}

#[test]
fn failures_of_a_download() {
    let (session, _) = DownloadSession::new(None, task(), "/m").unwrap();
    let mut l = DownloadLoop::new(&session);
    l.running = 3;
    let timeout = LoopEvent::Ended(ChunkResult::Timeout(2));
    assert!(matches!(l.download_loop(&session, timeout), LoopAction::Retry { chunk_id: 2 }));
    let failure = LoopEvent::Ended(ChunkResult::Failure(1, "bad".to_string()));
    match l.download_loop(&session, failure) {
        LoopAction::Fail(w) => assert_eq!(w, "分块 #1 处理失败: bad"),
        other => panic!("{other:?}"),
    }
    match l.download_loop(&session, LoopEvent::Panicked("boom".to_string())) {
        LoopAction::Fail(w) => assert_eq!(w, "任务执行出现严重错误 (panic): boom"),
        other => panic!("{other:?}"),
    }
    assert_eq!(l.running, 0);
}
