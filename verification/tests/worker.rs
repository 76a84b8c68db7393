use gmf::chunk::open_with_passphrase;
use gmf::common::events::{SetupRequestPayload, TaskEvent};
use gmf::remote::handler::{
    healthy, setup, setup_source, source_of, start, stream_step, Received, SourceProbe,
};
use gmf::remote::r2::put_object;
use gmf::remote::state::{AppState, ChunkProcessingStatus, ChunkState, TaskContext};
use gmf::remote::worker::{
    process_single_chunk, run_task, seal_job, tally, ChunkFill, ChunkJob, ChunkReader, ReadStep,
};

fn ended(id: u32, good: bool) -> ChunkState {
    let status = if good {
        ChunkProcessingStatus::Completed
    } else {
        ChunkProcessingStatus::Failed { reason: "x".to_string() }
    };
    ChunkState { id, status }
}

#[test]
fn short_reads_fill_a_chunk() {
    let mut f = ChunkFill::new(5);
    assert_eq!(f.room(), 5);
    f.accept(ReadStep::Data(vec![1, 2]));
    assert!(!f.is_complete());
    assert_eq!(f.room(), 3);
    f.accept(ReadStep::Data(vec![3, 4, 5]));
    assert!(f.is_complete());
    let job = f.finish(9).unwrap();
    assert_eq!(job.id, 9);
    assert_eq!(job.data, [1, 2, 3, 4, 5]);
}

#[test]
fn the_last_chunk_may_be_short() {
    let mut f = ChunkFill::new(5);
    f.accept(ReadStep::Data(vec![1]));
    f.accept(ReadStep::End);
    assert_eq!(f.finish(1).unwrap().data, [1]);
    let mut f = ChunkFill::new(5);
    f.accept(ReadStep::End);
    assert!(f.finish(1).is_none());
    let mut f = ChunkFill::new(5);
    f.accept(ReadStep::Data(vec![1]));
    f.accept(ReadStep::Failed);
    assert!(f.finish(1).is_none());
}

#[test]
fn a_file_is_read_in_numbered_chunks() {
    let file: Vec<u8> = (0..10).collect();
    let mut reader = ChunkReader::new(4);
    let mut at = 0;
    let mut jobs = Vec::new();
    loop {
        let mut fill = reader.next_fill();
        while !fill.is_complete() {
            let n = fill.room().min(3).min(file.len() - at);
            fill.accept(if n == 0 {
                ReadStep::End
            } else {
                ReadStep::Data(file[at..at + n].to_vec())
            });
            at += n;
        }
        match reader.take(fill) {
            Some(job) => jobs.push((job.id, job.data)),
            None => break,
        }
    }
    assert_eq!(
        jobs,
        [(1, vec![0, 1, 2, 3]), (2, vec![4, 5, 6, 7]), (3, vec![8, 9])]
    );
    assert_eq!(reader.next_id(), 4);
    let mut fill = ChunkFill::new(4);
    fill.accept(ReadStep::Failed);
    assert!(reader.take(fill).is_none());
    assert_eq!(reader.next_id(), 4);
}

#[test]
fn a_task_with_every_chunk_is_completed() {
    let states = vec![ended(1, true), ended(2, true)];
    assert_eq!(tally(&states), (2, 0));
    let (event, result) = run_task(2, &states);
    assert!(matches!(event, TaskEvent::TaskCompleted));
    assert!(result.is_ok());
}

#[test]
fn a_task_that_lacks_chunks_failed() {
    let states = vec![ended(1, true), ended(2, false), ended(3, true)];
    let (event, result) = run_task(3, &states);
    let words = "任务处理失败。总共 3 个分块，成功 2 个，失败 1 个。";
    assert_eq!(result.unwrap_err(), words);
    assert!(matches!(event, TaskEvent::Error { message } if message == words));
    let (_, result) = run_task(4, &vec![ended(1, true)]);
    assert_eq!(result.unwrap_err(), "任务处理失败。总共 4 个分块，成功 1 个，失败 0 个。");
}

#[test]
fn a_job_is_sealed_and_reported() {
    let job = ChunkJob { id: 4, data: b"job".to_vec() };
    let sealed = seal_job(&job).unwrap();
    assert_eq!(sealed.key, "4");
    assert_eq!(open_with_passphrase(&sealed.passphrase_b64, &sealed.data).unwrap(), b"job");
    let (state, event) = process_single_chunk(4, "pass".to_string(), Ok(()));
    assert_eq!(state.id, 4);
    assert!(matches!(state.status, ChunkProcessingStatus::Completed));
    assert!(matches!(
        event,
        Some(TaskEvent::ChunkReadyForDownload { chunk_id: 4, passphrase_b64 }) if passphrase_b64 == "pass"
    ));
    let (state, event) = process_single_chunk(4, "p".to_string(), Err("net".to_string()));
    assert!(event.is_none());
    assert!(matches!(
        state.status,
        ChunkProcessingStatus::Failed { reason } if reason == "上传失败: net"
    ));
}

fn probe(size: Option<u64>, sha: Result<&str, &str>) -> SourceProbe {
    SourceProbe {
        size,
        sha256: sha.map(|s| s.to_string()).map_err(|e| e.to_string()),
    }
}

#[test]
fn the_service_answers_about_a_file() {
    let mut c = TaskContext::new();
    let source = source_of("/d/film.mkv", 10).unwrap();
    let r = setup(&mut c, source, 10, 4, probe(Some(31), Ok("ff"))).unwrap();
    assert_eq!(r.filename, "film.mkv");
    assert_eq!((r.size, r.total_chunks), (31, 4));
    assert_eq!(r.sha256, "ff");
    let m = c.metadata.unwrap();
    assert_eq!(m.source_path, "/d/film.mkv");
    assert_eq!(m.source_filename, "film.mkv");
    assert_eq!((m.source_size, m.chunk_size, m.total_chunks, m.concurrency), (31, 10, 4, 4));
}

#[test]
fn the_service_refuses() {
    let e = source_of("/a", 0).unwrap_err();
    assert_eq!((e.status, e.message.as_str()), (400, "chunk_size 不能为 0"));
    let e = source_of("/a/..", 1).unwrap_err();
    assert_eq!((e.status, e.message.as_str()), (400, "无法从路径 '/a/..' 中提取文件名"));
    let mut c = TaskContext::new();
    let e = setup(&mut c, source_of("/a", 1).unwrap(), 1, 1, probe(None, Ok(""))).unwrap_err();
    assert_eq!((e.status, e.message.as_str()), (500, "获取文件 '/a' 的大小失败"));
    let e = setup(&mut c, source_of("/a", 1).unwrap(), 1, 1, probe(Some(1), Err("io"))).unwrap_err();
    assert_eq!(e.status, 500);
    assert_eq!(e.message, "计算文件 '/a' 的 SHA256 哈希失败: io");
    assert!(c.metadata.is_none());
    assert_eq!(healthy(), 200);
}

#[test]
fn the_service_expands_the_path() {
    let payload = SetupRequestPayload {
        path: "/srv/a.bin".to_string(),
        chunk_size: 1,
        concurrency: 1,
    };
    let home = Some("/root".to_string());
    let s = setup_source(&payload, &home).unwrap();
    assert_eq!(s.path, "/srv/a.bin");
    assert_eq!(s.filename, "a.bin");
    let payload = SetupRequestPayload { path: "~/b.bin".to_string(), ..payload };
    assert_eq!(setup_source(&payload, &home).unwrap().path, "/root/b.bin");
    assert_eq!(setup_source(&payload, &None).unwrap().path, "~/b.bin");
}

#[test]
fn only_one_task_runs() {
    let mut app = AppState::new();
    assert!(start(&mut app.0).is_none());
    assert!(app.0.running);
    match start(&mut app.0) {
        Some(TaskEvent::Error { message }) => assert_eq!(message, "Task is already running."),
        other => panic!("{other:?}"),
    }
}

#[test]
fn the_stream_ends_behind_a_final_report() {
    let s = stream_step(Received::Report(TaskEvent::ProcessingStart));
    assert!(s.go_on && s.emit.is_some());
    let s = stream_step(Received::Report(TaskEvent::TaskCompleted));
    assert!(!s.go_on && s.emit.is_some());
    let s = stream_step(Received::Report(TaskEvent::Error { message: "m".to_string() }));
    assert!(!s.go_on);
    let s = stream_step(Received::Lagged(3));
    assert!(s.go_on && s.emit.is_none());
    assert!(!stream_step(Received::Closed).go_on);
}

#[test]
fn answers_to_an_upload() {
    assert!(put_object("1", 200, b"").is_ok());
    assert!(put_object("1", 299, b"").is_ok());
    assert_eq!(
        put_object("1", 403, "拒绝".as_bytes()).unwrap_err(),
        "上传对象到 '1' 失败。状态码: 403. 错误信息: 拒绝"
    );
    assert_eq!(
        put_object("k", 300, &[0xff, b'a']).unwrap_err(),
        "上传对象到 'k' 失败。状态码: 300. 错误信息: \u{fffd}a"
    );
    assert!(put_object("k", 199, b"").is_err());
}
