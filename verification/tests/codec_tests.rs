use hydra_httpdl::codec::{decode_header, encode_header};
use hydra_httpdl::error::{FormatError, HydraError};
use hydra_httpdl::header::PersistedHeader;
use hydra_httpdl::{FORMAT_VERSION, HEADER_SIZE, MAX_CHUNK_COUNT};

fn sample_header() -> PersistedHeader {
    let etag_hash = vec![0xaau8; 32];
    let url_hash = vec![0x5bu8; 32];
    PersistedHeader::new(10, etag_hash, url_hash, 4).unwrap()
}

#[test]
fn encode_layout_is_fixed() {
    let h = sample_header();
    let b = encode_header(&h).unwrap();
    assert_eq!(b.len(), HEADER_SIZE);
    assert_eq!(&b[0..5], b"HYDRA");
    assert_eq!(b[5], FORMAT_VERSION);
    assert_eq!(&b[6..14], &10u64.to_le_bytes());
    assert_eq!(&b[14..46], &[0xaau8; 32]);
    assert_eq!(&b[46..78], &[0x5bu8; 32]);
    assert_eq!(&b[78..82], &4u32.to_le_bytes());
    assert_eq!(&b[82..86], &3u32.to_le_bytes());
    assert_eq!(b[86], 0); // one bitmap byte for 3 chunks, all clear
    assert!(b[87..].iter().all(|&x| x == 0));
}

#[test]
fn roundtrip_preserves_every_field() {
    let mut h = sample_header();
    h.set_chunk_complete(0);
    h.set_chunk_complete(2);
    let b = encode_header(&h).unwrap();
    let d = decode_header(&b).unwrap();
    assert_eq!(d.file_size, h.file_size);
    assert_eq!(d.etag_hash, h.etag_hash);
    assert_eq!(d.url_hash, h.url_hash);
    assert_eq!(d.chunk_size, h.chunk_size);
    assert_eq!(d.chunk_count, h.chunk_count);
    assert_eq!(d.bitmap.bytes, h.bitmap.bytes);
    assert_eq!(d.bitmap.count, h.bitmap.count);
}

#[test]
fn decode_rejects_bad_magic() {
    let h = sample_header();
    let mut b = encode_header(&h).unwrap();
    b[0] = b'X';
    assert!(matches!(
        decode_header(&b),
        Err(HydraError::Format(FormatError::BadMagic))
    ));
}

#[test]
fn decode_rejects_bad_version() {
    let h = sample_header();
    let mut b = encode_header(&h).unwrap();
    b[5] = FORMAT_VERSION + 1;
    assert!(matches!(
        decode_header(&b),
        Err(HydraError::Format(FormatError::BadVersion))
    ));
}

#[test]
fn decode_rejects_truncated_region() {
    let h = sample_header();
    let b = encode_header(&h).unwrap();
    assert!(matches!(
        decode_header(&b[..3]),
        Err(HydraError::Format(FormatError::Truncated))
    ));
    assert!(matches!(
        decode_header(&b[..50]),
        Err(HydraError::Format(FormatError::Truncated))
    ));
    // The fixed fields fit but the bitmap byte is cut off.
    assert!(matches!(
        decode_header(&b[..86]),
        Err(HydraError::Format(FormatError::Truncated))
    ));
}

#[test]
fn decode_rejects_inconsistent_geometry() {
    let h = sample_header();
    let mut b = encode_header(&h).unwrap();
    // Claim 4 chunks where ceil(10 / 4) is 3.
    b[82..86].copy_from_slice(&4u32.to_le_bytes());
    assert!(matches!(
        decode_header(&b),
        Err(HydraError::Format(FormatError::BadGeometry))
    ));
    let mut z = encode_header(&sample_header()).unwrap();
    z[78..82].copy_from_slice(&0u32.to_le_bytes());
    assert!(matches!(
        decode_header(&z),
        Err(HydraError::Format(FormatError::BadGeometry))
    ));
}

#[test]
fn oversized_bitmap_is_refused_at_creation() {
    // chunk_size 1 over a large file needs more chunk bits than the header
    // budget holds.
    let r = PersistedHeader::new(MAX_CHUNK_COUNT + 1, vec![0u8; 32], vec![0u8; 32], 1);
    assert_eq!(r.err(), Some(HydraError::CapacityExceeded));
}

#[test]
fn largest_fitting_bitmap_is_accepted() {
    let h = PersistedHeader::new(MAX_CHUNK_COUNT, vec![0u8; 32], vec![1u8; 32], 1).unwrap();
    assert_eq!(h.chunk_count as u64, MAX_CHUNK_COUNT);
    let b = encode_header(&h).unwrap();
    assert_eq!(b.len(), HEADER_SIZE);
    // The bitmap fills the budget exactly: no padding remains.
    assert_eq!(86 + h.bitmap.bytes.len(), HEADER_SIZE);
}

#[test]
fn empty_file_has_no_chunks_and_decodes() {
    let h = PersistedHeader::new(0, vec![2u8; 32], vec![3u8; 32], 8).unwrap();
    assert_eq!(h.chunk_count, 0);
    assert!(h.is_download_complete());
    let b = encode_header(&h).unwrap();
    let d = decode_header(&b).unwrap();
    assert_eq!(d.chunk_count, 0);
}
