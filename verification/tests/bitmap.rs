use base64::engine::general_purpose::STANDARD;
use base64::Engine;
use gmf::common::bitmap::{BitmapError, ChunkBitmap};
use gmf::outside::encoding::Base64Fault;

fn marked(len: u64, ids: &[u64]) -> ChunkBitmap {
    let mut b = ChunkBitmap::new(len);
    for id in ids {
        b.mark_completed(*id);
    }
    b
}

#[test]
fn a_new_bitmap_is_empty() {
    let b = ChunkBitmap::new(70);
    assert_eq!(b.len(), 70);
    assert_eq!(b.completed_count(), 0);
    assert_eq!(b.pending_count(), 70);
    assert!(!b.all_completed());
    assert!(ChunkBitmap::new(0).all_completed());
    assert_eq!(b.pending_ids(), (0..70).collect::<Vec<u64>>());
}

#[test]
fn marking_sets_one_bit() {
    let b = marked(130, &[0, 64, 129]);
    assert_eq!(b.completed_ids(), [0, 64, 129]);
    assert_eq!(b.completed_count(), 3);
    assert_eq!(b.pending_count(), 127);
    assert!(b.is_completed(64));
    assert!(!b.is_completed(63));
}

#[test]
fn marking_twice_counts_once() {
    let a = marked(10, &[3, 3, 5]);
    let b = marked(10, &[5, 3]);
    assert_eq!(a.completed_count(), 2);
    assert_eq!(a.completed_ids(), b.completed_ids());
}

#[test]
fn every_bit_set_is_all_completed() {
    let ids: Vec<u64> = (0..65).collect();
    let b = marked(65, &ids);
    assert!(b.all_completed());
    assert_eq!(b.completed_count(), b.len());
    assert!(b.pending_ids().is_empty());
}

#[test]
fn done_and_open_chunks_add_up() {
    let b = marked(77, &[1, 2, 3, 70]);
    assert_eq!(b.completed_count() + b.pending_count(), b.len());
    assert_eq!(b.completed_ids().len() as u64, b.completed_count());
    assert_eq!(b.pending_ids().len() as u64, b.pending_count());
}

#[test]
fn bits_in_bytes() {
    let b = marked(64, &[0, 9, 63]);
    assert_eq!(b.to_raw(), [1, 2, 0, 0, 0, 0, 0, 128]);
    let c = ChunkBitmap::from_raw(&[1, 2, 0, 0, 0, 0, 0, 128]);
    assert_eq!(c.completed_ids(), [0, 9, 63]);
    assert_eq!(b.to_base64(), STANDARD.encode([1, 2, 0, 0, 0, 0, 0, 128]));
}

#[test]
fn a_written_bitmap_reads_back() {
    for len in [0u64, 1, 63, 64, 65, 200] {
        let ids: Vec<u64> = (0..len).filter(|i| i % 3 == 0).collect();
        let b = marked(len, &ids);
        let mut c = ChunkBitmap::from_base64(&b.to_base64()).unwrap();
        assert!(c.len() >= len);
        c.truncate(len);
        assert_eq!(c.len(), len);
        assert_eq!(c.completed_ids(), ids);
    }
}

#[test]
fn what_is_not_a_bitmap() {
    assert_eq!(
        ChunkBitmap::from_base64("?").err(),
        Some(BitmapError::NotBase64(Base64Fault::InvalidByte(0, b'?')))
    );
    assert_eq!(
        ChunkBitmap::from_base64(&STANDARD.encode([0u8; 7])).err(),
        Some(BitmapError::NotWords { len: 7 })
    );
    assert_eq!(ChunkBitmap::from_base64("").unwrap().len(), 0);
}

#[test]
fn truncating_and_copying() {
    let mut b = marked(100, &[10, 90]);
    let copy = b.clone();
    b.truncate(200);
    assert_eq!(b.len(), 100);
    b.truncate(50);
    assert_eq!(b.completed_ids(), [10]);
    assert_eq!(copy.completed_ids(), [10, 90]);
}

#[test]
fn what_stands_behind_a_bitmap() {
    let full = "//////////8=";
    let mut b = ChunkBitmap::from_base64(full).unwrap();
    assert_eq!(b.completed_count(), 64);
    b.truncate(3);
    assert_eq!(b.completed_count(), 3);
    assert_eq!(b.to_base64(), full);
    assert_eq!(b.clone().to_base64(), "BwAAAAAAAAA=");
    let mut c = ChunkBitmap::new(70);
    c.mark_completed(69);
    let read = ChunkBitmap::from_base64(&c.to_base64()).unwrap();
    assert_eq!((read.len(), read.completed_count()), (128, 1));
    assert_eq!(read.completed_ids(), [69]);
}
