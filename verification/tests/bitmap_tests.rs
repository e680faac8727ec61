use hydra_httpdl::bitmap::ChunkBitmap;
use hydra_httpdl::header::PersistedHeader;

#[test]
fn fresh_bitmap_is_all_clear() {
    let bm = ChunkBitmap::new(11);
    assert_eq!(bm.bytes.len(), 2);
    for i in 0..11 {
        assert!(!bm.get(i));
    }
    assert!(!bm.is_complete());
}

#[test]
fn setting_every_bit_completes_any_unset_bit_does_not() {
    let mut bm = ChunkBitmap::new(11);
    for i in 0..10 {
        bm.set(i);
    }
    // One bit still unset keeps it incomplete, wherever it is.
    assert!(!bm.is_complete());
    bm.set(10);
    assert!(bm.is_complete());

    let mut other = ChunkBitmap::new(11);
    for i in 0..11 {
        if i != 4 {
            other.set(i);
        }
    }
    assert!(!other.is_complete());
    other.set(4);
    assert!(other.is_complete());
}

#[test]
fn set_is_least_significant_bit_first() {
    let mut bm = ChunkBitmap::new(16);
    bm.set(0);
    assert_eq!(bm.bytes[0], 0b0000_0001);
    bm.set(3);
    assert_eq!(bm.bytes[0], 0b0000_1001);
    bm.set(8);
    assert_eq!(bm.bytes[1], 0b0000_0001);
    assert!(bm.get(0) && bm.get(3) && bm.get(8));
    assert!(!bm.get(1) && !bm.get(7) && !bm.get(15));
}

#[test]
fn empty_bitmap_is_trivially_complete() {
    let bm = ChunkBitmap::new(0);
    assert_eq!(bm.bytes.len(), 0);
    assert!(bm.is_complete());
}

#[test]
fn header_completion_follows_its_bits() {
    let mut h = PersistedHeader::new(100, vec![1u8; 32], vec![2u8; 32], 30).unwrap();
    assert_eq!(h.chunk_count, 4);
    assert!(!h.is_download_complete());
    for i in 0..4 {
        assert!(!h.is_chunk_complete(i));
        h.set_chunk_complete(i);
        assert!(h.is_chunk_complete(i));
    }
    assert!(h.is_download_complete());
    // Indices past the count are never complete.
    assert!(!h.is_chunk_complete(4));
    assert!(!h.is_chunk_complete(1000));
}
