use gmf::client::comm::ChannelEvent;
use gmf::client::file::ChunkResult;
use gmf::client::remote::{
    expect_ready, setup, setup_notice, start, FileInfo, GMFClient, LoopAction, LoopEvent,
    ServerReply,
};
use gmf::client::remote_new::{
    check_remote, check_sha_script, make_dir_command, start_command, start_failed,
    InteractiveSession, ReceiveError, Received,
};

fn info() -> FileInfo {
    FileInfo { file_name: "f".to_string(), file_size: 2048, total_chunks: 3 }
}

fn fail(a: LoopAction) -> String {
    match a {
        LoopAction::Fail(w) => w,
        other => panic!("{other:?}"),
    }
}

#[test]
fn the_first_answer_is_ready() {
    assert!(expect_ready(&Some(ServerReply::Ready), "Ready").is_ok());
    assert_eq!(
        expect_ready(&Some(ServerReply::UploadCompleted), "UploadCompleted").unwrap_err(),
        "协议错误：期望收到 Ready 响应，但收到了 UploadCompleted"
    );
    assert_eq!(expect_ready(&None, "").unwrap_err(), "连接已关闭，未收到任何响应");
}

#[test]
fn answers_to_a_setup() {
    let good = ServerReply::SetupSuccess {
        file_name: "f".to_string(),
        file_size: 2048,
        total_chunks: 3,
    };
    let i = setup(Ok(Some(good)), "").unwrap();
    assert_eq!((i.file_size, i.total_chunks), (2048, 3));
    assert_eq!(setup_notice(&i), "✅ 文件名称: f (大小: 2.00 KB)");
    let bad = ServerReply::Error("no".to_string());
    assert_eq!(setup(Ok(Some(bad)), "").unwrap_err(), "服务端错误: no");
    assert_eq!(
        setup(Ok(Some(ServerReply::Ready)), "Ready").unwrap_err(),
        "意外的响应: 收到了非预期的服务器响应 Ready"
    );
    assert_eq!(setup(Ok(None), "").unwrap_err(), "连接中断: 在等待设置响应时连接已关闭");
    assert_eq!(setup(Err("eof".to_string()), "").unwrap_err(), "通信错误: eof");
}

#[test]
fn answers_to_a_start() {
    let good = ServerReply::StartSuccess { remaining_size: 9 };
    assert_eq!(start(&Some(good), "").unwrap(), 9);
    assert_eq!(
        start(&Some(ServerReply::Ready), "Ready").unwrap_err(),
        "协议错误: 期望收到 StartSuccess，但收到 Ready"
    );
    assert_eq!(
        start(&None, "").unwrap_err(),
        "连接中断: 在等待 StartSuccess 响应时连接已关闭"
    );
}

#[test]
fn chunks_are_counted_once() {
    let mut c = GMFClient::new();
    assert_eq!(c.take_file().unwrap_err(), "内部状态错误: file 未初始化");
    c.begin(info(), 1);
    let mut l = c.take_file().unwrap();
    assert!(c.take_file().is_err());
    assert!(!l.is_finished());
    for id in [1u64, 2, 2] {
        let ready = ServerReply::ChunkReadyForDownload {
            chunk_id: id,
            passphrase_b64: "p".to_string(),
            retry: false,
        };
        match l.event_loop(LoopEvent::Reply(ready), "") {
            LoopAction::Fetch { chunk_id, passphrase_b64, retry } => {
                assert_eq!((chunk_id, passphrase_b64.as_str(), retry), (id, "p", false));
            }
            other => panic!("{other:?}"),
        }
    }
    let ended = |id| LoopEvent::Ended(ChunkResult::Success(id));
    l.event_loop(ended(2), "");
    assert!(!l.is_finished());
    l.event_loop(ended(2), "");
    assert!(!l.is_finished());
    assert!(matches!(l.event_loop(ended(1), ""), LoopAction::Counted { chunk_id: 1 }));
    assert!(l.is_finished());
    assert_eq!(l.running, 0);
}

#[test]
fn other_events_of_a_download() {
    let mut c = GMFClient::new();
    c.begin(info(), 0);
    let mut l = c.take_file().unwrap();
    l.running = 3;
    let timeout = LoopEvent::Ended(ChunkResult::Timeout(2));
    assert!(matches!(l.event_loop(timeout, ""), LoopAction::Retry { chunk_id: 2 }));
    let bad = LoopEvent::Ended(ChunkResult::Failure(1, "x".to_string()));
    assert_eq!(fail(l.event_loop(bad, "")), "分块 #1 处理失败: x");
    let panicked = LoopEvent::Panicked("boom".to_string());
    assert_eq!(fail(l.event_loop(panicked, "")), "任务执行出现严重错误 (panic): boom");
    match l.event_loop(LoopEvent::Reply(ServerReply::Ready), "Ready") {
        LoopAction::Warn(w) => assert_eq!(w, "收到非关键消息: Ready"),
        other => panic!("{other:?}"),
    }
    let error = LoopEvent::Reply(ServerReply::Error("no".to_string()));
    assert_eq!(fail(l.event_loop(error, "")), "收到服务端错误: no");
    assert_eq!(
        fail(l.event_loop(LoopEvent::Closed, "")),
        "连接中断: 服务端在任务完成前关闭了连接"
    );
    assert_eq!(
        fail(l.event_loop(LoopEvent::TimedOut, "")),
        "等待远程服务端响应超时，绝大概率为首次上传超时，请重试"
    );
    let done = LoopEvent::Reply(ServerReply::UploadCompleted);
    assert!(matches!(l.event_loop(done, ""), LoopAction::NoteUploadTime));
    assert!(l.upload_completed);
}

#[test]
fn commands_for_the_remote_program() {
    assert_eq!(
        check_sha_script(),
        "\n        if [ -f \"$HOME/.local/bin/gmf-remote\" ]; then\n            sha256sum \"$HOME/.local/bin/gmf-remote\" | cut -d' ' -f1\n        else\n            echo \"\"\n        fi\n    "
    );
    assert!(!check_remote(Some(0), "ab\n", "ab"));
    assert!(check_remote(Some(0), "\n", "ab"));
    assert!(check_remote(Some(1), "ab", "ab"));
    assert!(check_remote(None, "ab", "ab"));
    assert_eq!(make_dir_command(), "mkdir -p $HOME/.local/bin");
    assert_eq!(
        start_command("e", "i", "s"),
        "ENDPOINT='e' ACCESS_KEY_ID='i' SECRET_ACCESS_KEY='s' $HOME/.local/bin/gmf-remote"
    );
    assert_eq!(
        start_failed(127, "not found"),
        "尝试以交互模式启动 gmf-remote 失败，程序立即退出。退出码: 127, 输出: not found"
    );
}

#[test]
fn an_answer_ends_with_its_mark() {
    let mut s = InteractiveSession::start();
    assert_eq!(s.send_command("go"), "go\n");
    let data = |b: &[u8]| ChannelEvent::Data(b.to_vec());
    assert!(matches!(s.receive_response(data("回".as_bytes()), "EN"), Received::More));
    assert!(matches!(s.receive_response(data(b"E"), "EN"), Received::More));
    assert!(matches!(s.receive_response(ChannelEvent::Other, "EN"), Received::More));
    match s.receive_response(data(b"ND"), "EN") {
        Received::Answer(t) => assert_eq!(t, "回END"),
        other => panic!("{other:?}"),
    }
    assert!(matches!(s.receive_response(data(b"E"), "EN"), Received::More));
    match s.receive_response(data(b"N"), "EN") {
        Received::Answer(t) => assert_eq!(t, "EN"),
        other => panic!("{other:?}"),
    }
}

#[test]
fn an_answer_that_is_late_is_forgotten() {
    let mut s = InteractiveSession::start();
    let data = |b: &[u8]| ChannelEvent::Data(b.to_vec());
    assert!(matches!(s.receive_response(data(b"E"), "EN"), Received::More));
    assert_eq!(s.timed_out("30s"), "等待响应超时 (超过 30s)");
    assert!(matches!(s.receive_response(data(b"N"), "EN"), Received::More));
}

#[test]
fn answers_that_do_not_come() {
    let mut s = InteractiveSession::start();
    let e = |r: Received| match r {
        Received::Failed(e) => e,
        other => panic!("{other:?}"),
    };
    let exit = e(s.receive_response(ChannelEvent::ExitStatus(9), "x"));
    assert!(matches!(exit, ReceiveError::Exited(9)));
    assert_eq!(exit.text(), "远程程序意外退出，退出码: 9");
    let closed = e(s.receive_response(ChannelEvent::Closed, "x"));
    assert_eq!(closed.text(), "通道在预期响应完成前被关闭");
    let odd = e(s.receive_response(ChannelEvent::Data(vec![0xff, b'x']), "x"));
    assert!(matches!(odd, ReceiveError::NotUtf8(_)));
    assert_eq!(odd.text(), String::from_utf8(vec![0xff, b'x']).unwrap_err().to_string());
    assert!(matches!(
        s.receive_response(ChannelEvent::Data(vec![b'x']), "x"),
        Received::Answer(t) if t == "x"
    ));
    assert!(s.shutdown(&ChannelEvent::Closed));
    assert!(s.shutdown(&ChannelEvent::ExitStatus(0)));
    assert!(!s.shutdown(&ChannelEvent::Other));
}
