use gmf::chunk::encrypt_chunk_with_nonce;
use gmf::client::bar::Bar;
use gmf::client::file::{
    metadata_file_name, numbered_name, open_fetched, temp_file_name, ChunkResult, ChunkWork, DownloadSession,
    Metadata, Task, WorkAction, WorkEvent,
};
use gmf::client::gmf_file::{
    chunk_handle, GmfFile, Header, HeaderError, WriteError, CHUNK_SIZE, HEADER_SIZE,
    WRITTEN_COUNT_AT,
};
use gmf::common::bitmap::ChunkBitmap;
use gmf::remote::server::encrypt_chunk_under;

fn task(size: u64, chunk_size: u64, total_chunks: u64) -> Task {
    Task {
        name: "a.bin".to_string(),
        size,
        xxh3: "abc".to_string(),
        local_path: "/here/a.bin".to_string(),
        remote_path: "~/a.bin".to_string(),
        chunk_size,
        total_chunks,
    }
}

fn sealed(data: &[u8]) -> (Vec<u8>, String) {
    encrypt_chunk_under(&[7u8; 32], &[9u8; 12], data).unwrap()
}

fn failure(action: WorkAction) -> (u64, String) {
    match action {
        WorkAction::End(ChunkResult::Failure(id, words)) => (id, words),
        other => panic!("{other:?}"),
    }
}

#[test]
fn names_of_the_files() {
    assert_eq!(metadata_file_name("abc"), "abc.json");
    assert_eq!(temp_file_name("abc"), "abc.gmf");
    assert_eq!(Metadata::new(task(25, 10, 3)).path(), "abc.json");
}

#[test]
fn a_file_arrives_in_any_order() {
    let file: Vec<u8> = (0..25).collect();
    let mut local = vec![0u8; 25];
    let (mut session, done) = DownloadSession::new(None, task(25, 10, 3), "/m").unwrap();
    assert_eq!(done, 0);
    for id in [2usize, 0, 2, 1] {
        let end = (id * 10 + 10).min(25);
        let (stored, pass) = sealed(&file[id * 10..end]);
        let mut work = ChunkWork::new(id as u64, pass);
        let fetched = WorkEvent::Fetched(Ok(stored));
        assert!(matches!(session.handle_chunk(&mut work, fetched), WorkAction::Delete));
        match session.handle_chunk(&mut work, WorkEvent::Deleted(Ok(()))) {
            WorkAction::Write { offset, data } => {
                assert_eq!(offset, id as u64 * 10);
                local[offset as usize..offset as usize + data.len()].copy_from_slice(&data);
            }
            other => panic!("{other:?}"),
        }
        let written = WorkEvent::Written(Ok(()));
        assert!(matches!(session.handle_chunk(&mut work, written), WorkAction::Save));
        assert!(session.is_completed(id as u64));
        match session.handle_chunk(&mut work, WorkEvent::Saved(Ok(()))) {
            WorkAction::End(ChunkResult::Success(n)) => assert_eq!(n, id as u64),
            other => panic!("{other:?}"),
        }
    }
    assert_eq!(local, file);
    assert_eq!(session.completed_chunks(), 3);
    assert!(session.finalize().is_ok());
}

#[test]
fn steps_that_fail() {
    let (mut s, _) = DownloadSession::new(None, task(25, 10, 3), "/m").unwrap();
    let mut w = ChunkWork::new(1, "x".to_string());
    let e = WorkEvent::Fetched(Err("net".to_string()));
    assert_eq!(failure(s.handle_chunk(&mut w, e)), (1, "分块 #1 下载失败: net".to_string()));
    let (stored, pass) = sealed(b"data");
    let mut w = ChunkWork::new(1, pass.clone());
    s.handle_chunk(&mut w, WorkEvent::Fetched(Ok(stored.clone())));
    let e = WorkEvent::Deleted(Err("gone".to_string()));
    assert_eq!(failure(s.handle_chunk(&mut w, e)), (1, "gone".to_string()));
    let mut w = ChunkWork::new(3, pass.clone());
    s.handle_chunk(&mut w, WorkEvent::Fetched(Ok(stored.clone())));
    assert_eq!(
        failure(s.handle_chunk(&mut w, WorkEvent::Deleted(Ok(())))),
        (3, "块索引 3 超出范围 (总数: 3)".to_string())
    );
    let mut w = ChunkWork::new(0, pass);
    s.handle_chunk(&mut w, WorkEvent::Fetched(Ok(stored)));
    s.handle_chunk(&mut w, WorkEvent::Deleted(Ok(())));
    let e = WorkEvent::Written(Err("disk".to_string()));
    assert_eq!(failure(s.handle_chunk(&mut w, e)), (0, "disk".to_string()));
    assert!(!s.is_completed(0));
    assert_eq!(
        s.finalize().unwrap_err(),
        "尝试完成下载，但还有未完成的分块: 0/3"
    );
}

#[test]
fn a_download_goes_on_under_another_spelling_of_its_paths() {
    let stored = Metadata::new(task(25, 10, 3));
    let respelled = Task {
        local_path: "/here//./a.bin/".to_string(),
        remote_path: "~//a.bin".to_string(),
        ..task(25, 10, 3)
    };
    let (session, _) = DownloadSession::new(Some(stored), respelled, "/m").unwrap();
    assert_eq!(session.metadata.local_path, "/here/a.bin");
    let other = Task { local_path: "here/a.bin".to_string(), ..task(25, 10, 3) };
    assert!(DownloadSession::new(Some(session.metadata), other, "/m").is_err());
}

#[test]
fn a_restart_has_every_chunk() {
    let (mut s, done) = DownloadSession::new(None, task(25, 10, 3), "/m").unwrap();
    assert_eq!(done, 0);
    s.chunk_written(2);
    let text = s.metadata.chunk_bitmap.to_base64();
    s.metadata.chunk_bitmap = ChunkBitmap::from_base64(&text).unwrap();
    let (mut s, done) = DownloadSession::new(Some(s.metadata), task(25, 10, 3), "/m").unwrap();
    assert_eq!(done, 1);
    s.chunk_written(0);
    let text = s.metadata.chunk_bitmap.to_base64();
    s.metadata.chunk_bitmap = ChunkBitmap::from_base64(&text).unwrap();
    let (s, done) = DownloadSession::new(Some(s.metadata), task(25, 10, 3), "/m").unwrap();
    assert_eq!(done, 2);
    assert!(s.is_completed(0) && !s.is_completed(1) && s.is_completed(2));
}

#[test]
fn a_bitmap_that_is_too_short_serves_the_chunks_it_has() {
    let mut m = Metadata::new(task(25, 10, 3));
    m.chunk_bitmap = ChunkBitmap::new(1);
    let (mut s, _) = DownloadSession::new(Some(m), task(25, 10, 3), "/m").unwrap();
    let (stored, pass) = sealed(&[1u8; 10]);
    let mut w = ChunkWork::new(0, pass);
    s.handle_chunk(&mut w, WorkEvent::Fetched(Ok(stored)));
    s.handle_chunk(&mut w, WorkEvent::Deleted(Ok(())));
    assert!(matches!(s.handle_chunk(&mut w, WorkEvent::Written(Ok(()))), WorkAction::Save));
    assert!(s.is_completed(0));
}

#[test]
fn names_for_files_that_are_there_already() {
    assert_eq!(numbered_name("a.bin", 1), "a (1).bin");
    assert_eq!(numbered_name("a.tar.gz", 12), "a.tar (12).gz");
    assert_eq!(numbered_name(".hidden", 2), ".hidden (2)");
    assert_eq!(numbered_name("文件", 3), "文件 (3)");
    assert_eq!(numbered_name("", 1), " (1)");
}

#[test]
fn chunks_that_do_not_open() {
    let words = |r: Result<Vec<u8>, ChunkResult>| match r {
        Err(ChunkResult::Failure(4, w)) => w,
        other => panic!("{other:?}"),
    };
    assert_eq!(words(open_fetched(4, "???", b"")), "Base64 解码密钥失败: Invalid symbol 63, offset 0.");
    assert_eq!(words(open_fetched(4, "AAAA", b"")), "解密任务本身发生错误，可以尝试重试");
    let (mut stored, pass) = sealed(b"data");
    assert_eq!(open_fetched(4, &pass, &stored).unwrap(), b"data");
    stored[20] ^= 1;
    assert_eq!(words(open_fetched(4, &pass, &stored)), "分块数据解密失败: Error");
}

#[test]
fn what_is_remembered_must_fit() {
    let mut m = Metadata::new(task(25, 10, 3));
    m.chunk_bitmap.mark_completed(2);
    let (s, done) = DownloadSession::new(Some(m), task(25, 10, 3), "/m").unwrap();
    assert_eq!((done, s.total_chunks()), (1, 3));
    let others = [task(26, 10, 3), task(25, 11, 3), task(25, 10, 4)];
    for other in others {
        let m = Metadata::new(task(25, 10, 3));
        assert_eq!(
            Metadata::load(m, &other, "/m").err().unwrap(),
            "元数据文件 '/m' 内容与当前下载任务不匹配，可能是旧的或损坏的文件"
        );
    }
    let mut renamed = task(25, 10, 3);
    renamed.xxh3 = "abd".to_string();
    assert!(Metadata::load(Metadata::new(task(25, 10, 3)), &renamed, "/m").is_err());
}

#[test]
fn progress_survives_a_restart() {
    let mut m = Metadata::new(task(1000, 10, 100));
    for id in [0u64, 63, 64, 99] {
        m.chunk_bitmap.mark_completed(id);
    }
    let text = m.chunk_bitmap.to_base64();
    let mut again = Metadata::new(task(1000, 10, 100));
    again.chunk_bitmap = ChunkBitmap::from_base64(&text).unwrap();
    assert_eq!(again.completed_chunks(), 4);
    for id in 0..100u64 {
        assert_eq!(again.is_completed(id), m.is_completed(id), "{id}");
    }
}

#[test]
fn a_header_is_read_back() {
    let h = Header { chunk_count: 0x01020304, written_count: 7 };
    let mut bytes = h.to_bytes();
    assert_eq!(bytes.len(), HEADER_SIZE);
    assert_eq!(&bytes[..13], b"gmf temp file");
    assert_eq!(&bytes[13..], [0, 0, 0, 4, 3, 2, 1, 7, 0, 0, 0]);
    bytes.push(99);
    assert_eq!(Header::read_from(&bytes), Ok(h));
    assert_eq!(Header::read_from(&bytes[..23]), Err(HeaderError::UnexpectedEof));
    bytes[3] = b'_';
    assert_eq!(Header::read_from(&bytes), Err(HeaderError::InvalidMagic));
}

#[test]
fn chunks_are_appended_in_order() {
    let (mut f, mut file) = GmfFile::create(2);
    assert!(!f.is_chunk_present(0));
    let appended = f.write_chunk(0, b"abc").unwrap();
    assert_eq!(appended.len() as u64, CHUNK_SIZE);
    assert_eq!(&appended[..5], b"abc\0\0");
    file.extend_from_slice(&appended);
    let count = f.chunk_appended();
    let at = WRITTEN_COUNT_AT as usize;
    file[at..at + 4].copy_from_slice(&count);
    let mut g = GmfFile::verify_and_open(&file).unwrap();
    assert_eq!(*g.header(), Header { chunk_count: 2, written_count: 1 });
    assert!(g.is_chunk_present(0) && !g.is_chunk_present(1));
    let e = g.write_chunk(0, b"").unwrap_err();
    assert_eq!(e, WriteError::OutOfOrder { expected: 1, got: 0 });
    assert_eq!(e.text(), "expected idx 1, got 0 (out of order)");
    let large = vec![0u8; CHUNK_SIZE as usize + 1];
    let e = g.write_chunk(1, &large).unwrap_err();
    assert_eq!(e, WriteError::TooLarge);
    assert_eq!(e.text(), "data larger than CHUNK_SIZE (10 MB)");
    assert!(g.write_chunk(1, &large[1..]).is_ok());
    g.chunk_appended();
    let e = g.write_chunk(2, b"").unwrap_err();
    assert_eq!(e, WriteError::TooMany);
    assert_eq!(e.text(), "exceeds declared chunk_count");
}

#[test]
fn a_fetched_chunk_is_tried() {
    let data = encrypt_chunk_with_nonce(&[7u8; 32], &[1u8; 12], b"x").unwrap();
    let (_, pass) = sealed(b"");
    assert!(chunk_handle(0, &data, &pass).is_ok());
    assert!(chunk_handle(0, &data[..12], &pass).is_err());
}

#[test]
fn a_bar_moves() {
    let mut b = Bar::new(5, 2);
    b.step();
    assert_eq!((b.position, b.ended), (3, false));
    b.abandon();
    assert_eq!((b.position, b.ended), (3, true));
    b.finish();
    assert_eq!((b.position, b.ended), (5, true));
    let mut b = Bar::new(5, u64::MAX);
    b.step();
    assert_eq!(b.position, 0);
}
