use aes_gcm::aead::{Aead, KeyInit};
use aes_gcm::{Aes256Gcm, Key, Nonce};
use base64::engine::general_purpose::STANDARD;
use base64::Engine;
use gmf::chunk::{
    check_and_open, decrypt_and_merge, decrypt_chunk, encrypt_chunk, encrypt_chunk_with_nonce,
    frame_manifest, generate_key, manifest_from_str, name_work_dir, new_work_dir,
    open_with_passphrase, restored_path, seal_entry, seal_fresh_entry, sha256_hex, sort_chunks,
    split_and_encrypt, ChunkInfo, ManifestError, ManifestFile, Merger, OpenError, Splitter,
    CHUNK_SIZE,
};
use gmf::common::events::calc_sha256;
use gmf::common::utils::calc_xxh3;
use gmf::outside::encoding::Base64Fault;

fn entry(id: u32) -> ChunkInfo {
    ChunkInfo {
        id,
        filename: format!("f{id}"),
        passphrase_b64: String::new(),
        sha256: String::new(),
        size: 0,
    }
}

fn manifest(chunks: Vec<ChunkInfo>) -> ManifestFile {
    ManifestFile {
        filename: "x".to_string(),
        total_size: 0,
        chunk_size: CHUNK_SIZE,
        total_chunks: chunks.len() as u32,
        chunks,
    }
}

#[test]
fn a_sealed_chunk_is_what_the_cipher_makes() {
    let key = [7u8; 32];
    let nonce = [9u8; 12];
    let sealed = encrypt_chunk_with_nonce(&key, &nonce, b"hello").unwrap();
    let cipher = Aes256Gcm::new(Key::<Aes256Gcm>::from_slice(&key));
    let expected = cipher.encrypt(Nonce::from_slice(&nonce), b"hello".as_ref()).unwrap();
    assert_eq!(&sealed[..12], &nonce);
    assert_eq!(&sealed[12..], &expected[..]);
    assert_eq!(sealed.len(), 5 + 28);
}

#[test]
fn a_sealed_chunk_opens_again() {
    let key = generate_key();
    for len in [0usize, 1, 15, 16, 17, 1000] {
        let plain: Vec<u8> = (0..len).map(|i| i as u8).collect();
        let sealed = encrypt_chunk(&key, &plain).unwrap();
        assert_ne!(sealed, plain);
        assert_eq!(decrypt_chunk(&key, &sealed).unwrap(), plain);
        let pass = STANDARD.encode(key);
        assert_eq!(open_with_passphrase(&pass, &sealed).unwrap(), plain);
    }
}

#[test]
fn a_changed_byte_keeps_a_chunk_shut() {
    let key = [1u8; 32];
    let sealed = encrypt_chunk(&key, b"data").unwrap();
    assert_eq!(sealed.len(), 32);
    for i in 0..sealed.len() {
        let mut other = sealed.clone();
        other[i] ^= 0x40;
        assert_eq!(decrypt_chunk(&key, &other), Err(OpenError::CipherFailed));
    }
    for n in 0..28 {
        assert!(decrypt_chunk(&key, &sealed[..n]).is_err());
    }
}

#[test]
fn a_changed_part_spoils_the_file() {
    let pieces = vec![b"first".to_vec(), b"second".to_vec()];
    let (m, stored) = split_and_encrypt("d", "/x/in.bin", 11, &pieces).unwrap();
    assert_eq!((m.chunks[0].size, m.chunks[1].size), (33, 34));
    let whole: Vec<Option<Vec<u8>>> = stored.iter().cloned().map(Some).collect();
    assert_eq!(decrypt_and_merge(&m, &whole).unwrap(), b"firstsecond");
    for i in 0..2 {
        let mut missing = whole.clone();
        missing[i] = None;
        assert!(decrypt_and_merge(&m, &missing).is_err());
        let mut longer = whole.clone();
        longer[i].as_mut().unwrap().push(0);
        assert!(decrypt_and_merge(&m, &longer).is_err());
        let mut other = whole.clone();
        other[i].as_mut().unwrap()[13] ^= 1;
        assert!(matches!(decrypt_and_merge(&m, &other), Err(OpenError::HashMismatch { .. })));
    }
    assert_eq!(restored_path(&m.filename, "/out/tmp"), "/out/in.bin");
}

#[test]
fn a_file_goes_piece_by_piece() {
    let mut splitter = Splitter::new("gmf-7");
    let (first, a) = splitter.step(b"first").unwrap();
    let (second, b) = splitter.step(b"second").unwrap();
    assert_eq!((first.as_str(), second.as_str()), ("gmf-7/gmf.part1", "gmf-7/gmf.part2"));
    let mut m = splitter.finish("in.bin", 11);
    assert_eq!((m.total_chunks, m.chunks[1].id, m.chunks[1].size), (2, 2, 34));
    m.chunks.reverse();
    let mut merger = Merger::new(&m.chunks);
    assert_eq!(merger.next_file().as_deref(), Some("gmf-7/gmf.part1"));
    assert_eq!(merger.step(&None), Err(OpenError::Missing { id: 1 }));
    assert_eq!(merger.step(&Some(a)).unwrap(), b"first");
    assert_eq!(merger.next_file().as_deref(), Some("gmf-7/gmf.part2"));
    assert_eq!(merger.step(&Some(b)).unwrap(), b"second");
    assert_eq!(merger.next_file(), None);
}

#[test]
fn a_manifest_that_is_not_there_in_words() {
    assert_eq!(
        manifest_from_str("x").unwrap_err().text(),
        "找不到清单起始分隔符: ---GMF-MANIFEST-START---"
    );
    assert_eq!(
        ManifestError::NoEnd.text(),
        "找不到清单结束分隔符: ---GMF-MANIFEST-END---"
    );
    assert_eq!(ManifestError::Empty.text(), "清单分隔符顺序不正确或内容为空");
}

#[test]
fn fresh_keys_and_nonces_differ() {
    assert_ne!(generate_key(), generate_key());
    let key = [1u8; 32];
    let a = encrypt_chunk(&key, b"same").unwrap();
    let b = encrypt_chunk(&key, b"same").unwrap();
    assert_ne!(a, b);
    assert_ne!(new_work_dir(), new_work_dir());
}

#[test]
fn a_chunk_that_does_not_open() {
    let key = [1u8; 32];
    let mut sealed = encrypt_chunk(&key, b"data").unwrap();
    assert_eq!(decrypt_chunk(&[2u8; 32], &sealed), Err(OpenError::CipherFailed));
    sealed[14] ^= 1;
    assert_eq!(decrypt_chunk(&key, &sealed), Err(OpenError::CipherFailed));
    assert_eq!(decrypt_chunk(&key, &[0u8; 11]), Err(OpenError::TooShort));
    assert_eq!(decrypt_chunk(&key, &[0u8; 12]), Err(OpenError::CipherFailed));
    assert_eq!(
        open_with_passphrase("!", &sealed),
        Err(OpenError::PassphraseNotBase64(Base64Fault::InvalidByte(0, b'!')))
    );
    assert_eq!(
        open_with_passphrase(&STANDARD.encode([1u8; 31]), &sealed),
        Err(OpenError::KeyLength { len: 31 })
    );
}

#[test]
fn size_and_digest_come_before_the_key() {
    let (info, data) = seal_entry("w", 3, &[1u8; 32], &[2u8; 12], b"abc").unwrap();
    assert_eq!(
        check_and_open(3, 1, &info.sha256, &info.passphrase_b64, &data),
        Err(OpenError::SizeMismatch { id: 3, expected: 1, actual: 31 })
    );
    assert_eq!(
        check_and_open(3, info.size, "00", "!", &data),
        Err(OpenError::HashMismatch { id: 3 })
    );
    assert_eq!(
        check_and_open(3, info.size, &info.sha256, "!", &data),
        Err(OpenError::PassphraseNotBase64(Base64Fault::InvalidByte(0, b'!')))
    );
    assert_eq!(info.open(&data).unwrap(), b"abc");
}

#[test]
fn digests_of_known_texts() {
    assert_eq!(
        sha256_hex(b"abc"),
        "ba7816bf8f01cfea414140de5dae2223b00361a396177a9cb410ff61f20015ad"
    );
    assert_eq!(
        calc_sha256(b""),
        "e3b0c44298fc1c149afbf4c8996fb92427ae41e4649b934ca495991b7852b855"
    );
    assert_eq!(calc_xxh3(b""), "2d06800538d394c2");
    assert_eq!(calc_xxh3(b"abc"), format!("{:x}", xxhash_rust::xxh3::xxh3_64(b"abc")));
}

#[test]
fn streaming_gives_the_same_hash() {
    let data: Vec<u8> = (0..20_000u32).map(|i| (i * 7) as u8).collect();
    let mut hasher = xxhash_rust::xxh3::Xxh3::new();
    for piece in data.chunks(8192) {
        hasher.update(piece);
    }
    assert_eq!(calc_xxh3(&data), format!("{:x}", hasher.digest()));
}

#[test]
fn entries_describe_their_chunks() {
    let key = [5u8; 32];
    let (info, data) = seal_entry("gmf-1", 12, &key, &[6u8; 12], b"piece").unwrap();
    assert_eq!(info.id, 12);
    assert_eq!(info.filename, "gmf-1/gmf.part12");
    assert_eq!(info.passphrase_b64, STANDARD.encode(key));
    assert_eq!(info.sha256, sha256_hex(&data));
    assert_eq!(info.size, 33);
    let (fresh, stored) = seal_fresh_entry("gmf-1", 1, b"piece").unwrap();
    assert_eq!(fresh.open(&stored).unwrap(), b"piece");
    assert_eq!(name_work_dir(42), "gmf-42");
}

#[test]
fn a_file_is_split_and_put_together_again() {
    let pieces = vec![b"first ".to_vec(), b"second ".to_vec(), b"third".to_vec()];
    let (m, stored) = split_and_encrypt("gmf-7", "/tmp/a.txt", 18, &pieces).unwrap();
    assert_eq!(m.filename, "/tmp/a.txt");
    assert_eq!(m.total_size, 18);
    assert_eq!(m.chunk_size, 10 * 1024 * 1024);
    assert_eq!(m.total_chunks, 3);
    let ids: Vec<u32> = m.chunks.iter().map(|c| c.id).collect();
    assert_eq!(ids, [1, 2, 3]);
    assert_eq!(m.chunks[2].filename, "gmf-7/gmf.part3");
    let there: Vec<Option<Vec<u8>>> = stored.into_iter().map(Some).collect();
    assert_eq!(decrypt_and_merge(&m, &there).unwrap(), b"first second third");
}

#[test]
fn an_empty_file_has_no_chunks() {
    let (m, stored) = split_and_encrypt("d", "e", 0, &Vec::new()).unwrap();
    assert_eq!(m.total_chunks, 0);
    assert!(stored.is_empty());
    assert_eq!(decrypt_and_merge(&m, &Vec::new()).unwrap(), b"");
}

#[test]
fn chunks_are_merged_by_number() {
    let (a, da) = seal_fresh_entry("w", 1, b"A").unwrap();
    let (b, db) = seal_fresh_entry("w", 2, b"B").unwrap();
    let m = manifest(vec![b, a]);
    let merged = decrypt_and_merge(&m, &vec![Some(da), Some(db)]).unwrap();
    assert_eq!(merged, b"AB");
}

#[test]
fn the_first_bad_chunk_ends_the_merge() {
    let (a, da) = seal_fresh_entry("w", 1, b"A").unwrap();
    let (b, _) = seal_fresh_entry("w", 2, b"B").unwrap();
    let m = manifest(vec![a, b]);
    assert_eq!(decrypt_and_merge(&m, &vec![Some(da), None]), Err(OpenError::Missing { id: 2 }));
    assert_eq!(decrypt_and_merge(&m, &vec![None, None]), Err(OpenError::Missing { id: 1 }));
}

#[test]
fn sorting_is_stable() {
    let mut second = entry(2);
    second.filename = "other".to_string();
    let sorted = sort_chunks(&vec![entry(3), entry(2), entry(1), second]);
    let names: Vec<&str> = sorted.iter().map(|c| c.filename.as_str()).collect();
    assert_eq!(names, ["f1", "f2", "other", "f3"]);
}

#[test]
fn a_framed_manifest_is_found_in_the_output() {
    let framed = frame_manifest("{\"a\": 1}");
    assert_eq!(framed, "---GMF-MANIFEST-START---\n{\"a\": 1}\n---GMF-MANIFEST-END---\n");
    let output = format!("log line\n{framed}bye\n");
    assert_eq!(manifest_from_str(&output).unwrap(), "{\"a\": 1}");
    let nested = frame_manifest("x ---GMF-MANIFEST-END--- ---GMF-MANIFEST-START--- y");
    assert_eq!(
        manifest_from_str(&nested).unwrap(),
        "x ---GMF-MANIFEST-END--- ---GMF-MANIFEST-START--- y"
    );
}

#[test]
fn an_output_without_a_manifest() {
    assert_eq!(manifest_from_str("nothing"), Err(ManifestError::NoStart));
    assert_eq!(manifest_from_str("---GMF-MANIFEST-START--- {}"), Err(ManifestError::NoEnd));
    assert_eq!(
        manifest_from_str("---GMF-MANIFEST-END---\n---GMF-MANIFEST-START---"),
        Err(ManifestError::Empty)
    );
    assert_eq!(
        manifest_from_str("---GMF-MANIFEST-START------GMF-MANIFEST-END---"),
        Err(ManifestError::Empty)
    );
    assert_eq!(
        manifest_from_str("---GMF-MANIFEST-START--- ---GMF-MANIFEST-END---").unwrap(),
        ""
    );
}

#[test]
fn errors_of_opening_in_words() {
    let e = OpenError::SizeMismatch { id: 2, expected: 10, actual: 9 };
    assert_eq!(e.text(""), "分块 2 大小不匹配. 预期: 10, 实际: 9");
    assert_eq!(OpenError::HashMismatch { id: 3 }.text(""), "分块 3 SHA256校验和不匹配.");
    assert_eq!(OpenError::Missing { id: 1 }.text("\"/tmp/x\""), "分块文件不存在: \"/tmp/x\"");
    assert_eq!(OpenError::TooShort.text(""), "输入文件太短，无法包含有效 nonce");
    assert_eq!(OpenError::CipherFailed.text(""), "解密失败: Error");
    assert_eq!(OpenError::KeyLength { len: 3 }.text(""), "could not convert slice to array");
    for text in ["!", "QUJ=Q", "A", "QUI", "QUJ", "QR==", "Q===", "QUJDR"] {
        match open_with_passphrase(text, b"") {
            Err(e) => {
                assert!(matches!(e, OpenError::PassphraseNotBase64(_)));
                assert_eq!(e.text(""), STANDARD.decode(text).unwrap_err().to_string());
            }
            other => panic!("{text}: {other:?}"),
        }
    }
    assert_eq!(Base64Fault::InvalidByte(3, 61).text(), "Invalid symbol 61, offset 3.");
    assert_eq!(Base64Fault::InvalidLength(5).text(), "Invalid input length: 5");
    assert_eq!(Base64Fault::InvalidLastSymbol(1, 82).text(), "Invalid last symbol 82, offset 1.");
    assert_eq!(Base64Fault::InvalidPadding.text(), "Invalid padding");
}

#[test]
fn fetched_chunks_with_local_paths() {
    let (a, da) = seal_fresh_entry("w", 1, b"A").unwrap();
    let (b, db) = seal_fresh_entry("w", 2, b"B").unwrap();
    let local = |c: ChunkInfo| gmf::r2::ChunkInfo {
        id: c.id,
        local_path: c.filename,
        passphrase_b64: c.passphrase_b64,
        sha256: c.sha256,
        size: c.size,
    };
    let m = gmf::r2::Manifest {
        filename: "f".to_string(),
        total_size: 2,
        chunk_size: gmf::r2::CHUNK_SIZE,
        total_chunks: 2,
        chunks: vec![local(b), local(a)],
    };
    assert_eq!(gmf::r2::decrypt_and_merge(&m, &vec![Some(da), Some(db)]).unwrap(), b"AB");
    let key = [3u8; 32];
    let sealed = encrypt_chunk(&key, b"z").unwrap();
    assert_eq!(gmf::r2::decrypt_chunk(&key, &sealed).unwrap(), b"z");
    assert_eq!(gmf::r2::decrypt_chunk(&key, b"short"), Err(OpenError::TooShort));
}
