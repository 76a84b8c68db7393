use gmf::common::bitmap::ChunkBitmap;
use gmf::common::interface::{ClientRequest, Message, ServerResponse, StartResponse};
use gmf::chunk::open_with_passphrase;
use gmf::remote::logging::init_logging;
use gmf::remote::metadata::{
    global_chunk_bitmap, global_metadata, init_chunk_bitmap, init_metadata, Memory, TaskMetadata,
};
use gmf::remote::msg::{on_parsed, on_read, LineRead, LineStep, ParsedStep};
use gmf::remote::server::{
    accept_start, chunk_offset, encrypt_chunk, encrypt_chunk_under, setup, setup_target, start,
    start_failed, upload_chunk, uploaded, FileProbe, Scheduler, UploadError, MAX_CONCURRENCY,
};

fn error_text(r: ServerResponse) -> String {
    match r {
        ServerResponse::Error(e) => e,
        other => panic!("{other:?}"),
    }
}

fn found(size: u64) -> FileProbe {
    FileProbe::File { size, xxh3: "ab".to_string() }
}

#[test]
fn setup_refuses_what_it_cannot_send() {
    let mut m = Memory::new();
    let e = error_text(setup(&mut m, "a", "a", 0, found(1)));
    assert_eq!(e, "chunk_size 不能为 0");
    let e = error_text(setup(&mut m, "~/..", "/home/u/..", 5, found(1)));
    assert_eq!(e, "无法从路径 '~/..' 中提取有效的文件名");
    let e = error_text(setup(&mut m, "~/a", "/home/u/a", 5, FileProbe::NotFound));
    assert_eq!(e, "文件未找到: '/home/u/a'");
    let denied = FileProbe::Failed("denied".to_string());
    let e = error_text(setup(&mut m, "~/a", "/home/u/a", 5, denied));
    assert_eq!(e, "无法访问文件 '/home/u/a': denied");
    let e = error_text(setup(&mut m, "~/a", "/home/u/a", 5, FileProbe::Directory));
    assert_eq!(e, "路径指向一个目录，而不是文件: '/home/u/a'");
    assert!(m.metadata.is_none());
}

#[test]
fn setup_remembers_the_file() {
    let mut m = Memory::new();
    match setup(&mut m, "~/a.bin", "/home/u/a.bin", 10, found(25)) {
        ServerResponse::SetupSuccess(s) => {
            assert_eq!(s.file_name, "a.bin");
            assert_eq!(s.file_size, 25);
            assert_eq!(s.total_chunks, 3);
            assert_eq!(s.xxh3, "ab");
        }
        other => panic!("{other:?}"),
    }
    let meta = global_metadata(&m);
    assert_eq!(meta.file_path(), "/home/u/a.bin");
    assert_eq!(meta.file_size(), 25);
    assert_eq!(meta.chunk_size(), 10);
    assert_eq!(meta.total_chunks(), 3);
}

fn home() -> Option<String> {
    Some("/home/u".to_string())
}

#[test]
fn a_path_without_tilde_stays() {
    let t = setup_target("/var/data/x.tar", &home(), 5).unwrap();
    assert_eq!(t.file_path, "/var/data/x.tar");
    assert_eq!(t.file_name, "x.tar");
    let t = setup_target("~root/x", &home(), 5).unwrap();
    assert_eq!(t.file_path, "~root/x");
    assert_eq!(error_text(setup_target("x", &home(), 0).unwrap_err()), "chunk_size 不能为 0");
}

#[test]
fn a_leading_tilde_is_the_home_directory() {
    let t = setup_target("~/x", &home(), 5).unwrap();
    assert_eq!(t.file_path, "/home/u/x");
    assert_eq!(t.file_name, "x");
    let t = setup_target("~", &home(), 5).unwrap();
    assert_eq!((t.file_path.as_str(), t.file_name.as_str()), ("/home/u", "u"));
    let t = setup_target("~/x", &None, 5).unwrap();
    assert_eq!(t.file_path, "~/x");
}

#[test]
fn start_counts_what_is_left() {
    let mut m = Memory::new();
    init_metadata(&mut m, TaskMetadata::new("/f".to_string(), 25, 10, 3));
    let mut sent = ChunkBitmap::new(64);
    sent.mark_completed(1);
    match accept_start(&mut m, sent) {
        ServerResponse::StartSuccess(s) => assert_eq!(s, StartResponse { remaining_size: 15 }),
        other => panic!("{other:?}"),
    }
    assert_eq!(global_chunk_bitmap(&m).len(), 3);
    assert_eq!(global_chunk_bitmap(&m).pending_ids(), [0, 2]);
    let (s, first) = start(&m);
    assert_eq!(first, [0, 2]);
    assert_eq!((s.started(), s.in_flight()), (2, 2));
}

#[test]
fn start_with_everything_done() {
    let mut m = Memory::new();
    init_metadata(&mut m, TaskMetadata::new("/f".to_string(), 25, 10, 3));
    let mut sent = ChunkBitmap::new(3);
    for id in 0..3 {
        sent.mark_completed(id);
    }
    match accept_start(&mut m, sent) {
        ServerResponse::StartSuccess(s) => assert_eq!(s.remaining_size, 0),
        other => panic!("{other:?}"),
    }
    let (s, first) = start(&m);
    assert!(first.is_empty());
    assert!(s.is_done());
}

#[test]
fn at_most_five_uploads_run() {
    let pending: Vec<u64> = (10..22).collect();
    let (mut s, first) = Scheduler::begin(pending.clone());
    assert_eq!(first, [10, 11, 12, 13, 14]);
    let mut handed = first;
    while !s.is_done() {
        assert!(s.in_flight() <= MAX_CONCURRENCY);
        if let Some(id) = s.joined(false) {
            handed.push(id);
        }
    }
    assert_eq!(handed, pending);
    assert!(matches!(s.farewell(false), Some(ServerResponse::UploadCompleted)));
}

#[test]
fn a_stopped_upload_starts_nothing_new() {
    let (mut s, first) = Scheduler::begin((0..9).collect());
    assert_eq!(first.len(), 5);
    assert_eq!(s.joined(false), Some(5));
    for _ in 0..5 {
        assert_eq!(s.joined(true), None);
    }
    assert!(s.is_done());
    assert_eq!(s.started(), 6);
    assert!(s.farewell(true).is_none());
}

#[test]
fn a_failed_upload_in_words() {
    let chain = vec!["outer".to_string(), "inner".to_string()];
    assert_eq!(
        error_text(start_failed(&chain)),
        "start 上传任务执行失败:\nouter\n  caused by: inner"
    );
}

#[test]
fn a_chunk_is_announced_once_it_is_stored() {
    let up = upload_chunk(12, b"chunk data").unwrap();
    assert!(matches!(
        uploaded(up, Ok(())),
        Ok(ServerResponse::ChunkReadyForDownload { chunk_id: 12, .. })
    ));
    let up = upload_chunk(12, b"chunk data").unwrap();
    assert_eq!(
        uploaded(up, Err("net".to_string())).unwrap_err(),
        "分块 #12 上传失败 (已自动重试): net"
    );
}

#[test]
fn an_uploaded_chunk_opens_with_what_is_announced() {
    let up = upload_chunk(12, b"chunk data").unwrap();
    assert_eq!(up.key, "12");
    match up.notice {
        ServerResponse::ChunkReadyForDownload { chunk_id, passphrase_b64 } => {
            assert_eq!(chunk_id, 12);
            assert_eq!(open_with_passphrase(&passphrase_b64, &up.data).unwrap(), b"chunk data");
        }
        other => panic!("{other:?}"),
    }
}

#[test]
fn a_chunk_behind_the_end_is_not_uploaded() {
    let e = upload_chunk(7, b"").unwrap_err();
    assert_eq!(e, UploadError::Empty { chunk_id: 7 });
    assert_eq!(e.text(), "指定的块号 7 超出文件范围，没有可读取的数据。");
    assert_eq!(UploadError::Seal { chunk_id: 3 }.text(), "分块 #3 加密失败");
    assert_eq!(chunk_offset(3, 10), 30);
}

#[test]
fn encryption_gives_the_key_in_base64() {
    let (data, pass) = encrypt_chunk_under(&[1u8; 32], &[2u8; 12], b"x").unwrap();
    assert_eq!(pass, "AQEBAQEBAQEBAQEBAQEBAQEBAQEBAQEBAQEBAQEBAQE=");
    assert_eq!(open_with_passphrase(&pass, &data).unwrap(), b"x");
    let (data, pass) = encrypt_chunk(b"y").unwrap();
    assert_eq!(open_with_passphrase(&pass, &data).unwrap(), b"y");
}

#[test]
fn memory_holds_each_thing_once() {
    let mut m = Memory::new();
    init_chunk_bitmap(&mut m, ChunkBitmap::new(4));
    assert_eq!(global_chunk_bitmap(&m).len(), 4);
    assert!(m.metadata.is_none());
}

#[test]
fn lines_from_the_client() {
    assert!(matches!(on_read(LineRead::End), LineStep::Stop));
    assert!(matches!(on_read(LineRead::Line(" \r\n".to_string())), LineStep::Skip));
    match on_read(LineRead::Line(" {\"a\":1}\n".to_string())) {
        LineStep::Parse(t) => assert_eq!(t, "{\"a\":1}"),
        other => panic!("{other:?}"),
    }
    match on_read(LineRead::Failed("broken".to_string())) {
        LineStep::ReplyAndStop(e) => assert_eq!(error_text(e), "读取 stdin 失败: broken"),
        other => panic!("{other:?}"),
    }
}

#[test]
fn parsed_lines_from_the_client() {
    let request = ClientRequest::Setup { path: "p".to_string(), chunk_size: 3 };
    match on_parsed(Ok(Message::from(request))) {
        ParsedStep::Forward(ClientRequest::Setup { path, chunk_size }) => {
            assert_eq!((path.as_str(), chunk_size), ("p", 3));
        }
        _ => panic!("not forwarded"),
    }
    match on_parsed(Ok(Message::from(ServerResponse::Heartbeat))) {
        ParsedStep::Reply(e) => {
            assert_eq!(error_text(e), "协议错误：收到了非 Request 类型的消息。");
        }
        _ => panic!("not answered"),
    }
    match on_parsed(Err("eof".to_string())) {
        ParsedStep::Reply(e) => assert_eq!(error_text(e), "无法解析 JSON: eof"),
        _ => panic!("not answered"),
    }
}

#[test]
fn logging_is_off_unless_asked_for() {
    assert!(!init_logging(&None));
    assert!(!init_logging(&Some("None".to_string())));
    assert!(init_logging(&Some("INFO".to_string())));
}
