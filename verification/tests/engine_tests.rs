use hydra_httpdl::codec::{decode_header, encode_header};
use hydra_httpdl::engine::{plan_resume, ResumePlan, TransferIdentity};
use hydra_httpdl::error::{FormatError, HydraError};
use hydra_httpdl::header::PersistedHeader;

const URL: &[u8] = b"https://example.com/data.bin";
const ETAG: &[u8] = b"\"abc123\"";

fn identity() -> TransferIdentity {
    TransferIdentity::from_request(URL, ETAG)
}

fn stored_header() -> PersistedHeader {
    let id = identity();
    let mut h = PersistedHeader::new(100, id.etag_hash, id.url_hash, 10).unwrap();
    h.set_chunk_complete(3);
    h.set_chunk_complete(7);
    h
}

#[test]
fn sha256_digest_is_the_known_value() {
    // SHA-256 of "abc", as published with the algorithm.
    let id = TransferIdentity::from_request(b"abc", b"abc");
    let expected: [u8; 32] = [
        0xba, 0x78, 0x16, 0xbf, 0x8f, 0x01, 0xcf, 0xea, 0x41, 0x41, 0x40, 0xde, 0x5d, 0xae,
        0x22, 0x23, 0xb0, 0x03, 0x61, 0xa3, 0x96, 0x17, 0x7a, 0x9c, 0xb4, 0x10, 0xff, 0x61,
        0xf2, 0x00, 0x15, 0xad,
    ];
    assert_eq!(id.url_hash, expected.to_vec());
    assert_eq!(id.etag_hash, expected.to_vec());
    // Different inputs give different digests.
    let other = TransferIdentity::from_request(b"abd", b"abc");
    assert_ne!(other.url_hash, expected.to_vec());
}

#[test]
fn matching_identity_adopts_the_stored_bitmap_unchanged() {
    let h = stored_header();
    let want_bytes = h.bitmap.bytes.clone();
    let plan = plan_resume(Some(Ok(h)), 100, &identity(), 999, false, false).unwrap();
    match plan {
        ResumePlan::Adopt(a) => {
            assert_eq!(a.file_size, 100);
            // The stored chunk size governs, not the newly requested 999.
            assert_eq!(a.chunk_size, 10);
            assert_eq!(a.bitmap.bytes, want_bytes);
            assert!(a.is_chunk_complete(3) && a.is_chunk_complete(7));
            assert!(!a.is_chunk_complete(0));
        }
        ResumePlan::CreateFresh(_) => panic!("expected the stored header to be adopted"),
    }
}

#[test]
fn size_mismatch_rebuilds_from_scratch() {
    let h = stored_header();
    let plan = plan_resume(Some(Ok(h)), 250, &identity(), 10, false, false).unwrap();
    match plan {
        ResumePlan::CreateFresh(f) => {
            assert_eq!(f.file_size, 250);
            assert_eq!(f.chunk_count, 25);
            assert!(!f.is_chunk_complete(3));
            assert!(f.get_incomplete_chunks().len() == 25);
        }
        ResumePlan::Adopt(_) => panic!("expected a rebuild on size mismatch"),
    }
}

#[test]
fn url_mismatch_rebuilds_from_scratch() {
    let h = stored_header();
    let other = TransferIdentity::from_request(b"https://example.com/other.bin", ETAG);
    let plan = plan_resume(Some(Ok(h)), 100, &other, 10, false, false).unwrap();
    assert!(matches!(plan, ResumePlan::CreateFresh(_)));
}

#[test]
fn mismatch_with_resume_only_fails_and_keeps_the_file() {
    let h = stored_header();
    let r = plan_resume(Some(Ok(h)), 250, &identity(), 10, false, true);
    assert!(matches!(r, Err(HydraError::IdentityMismatch)));
}

#[test]
fn missing_file_with_resume_only_fails() {
    let r = plan_resume(None, 100, &identity(), 10, false, true);
    assert!(matches!(r, Err(HydraError::NothingToResume)));
}

#[test]
fn missing_file_creates_fresh() {
    let plan = plan_resume(None, 100, &identity(), 10, false, false).unwrap();
    assert!(matches!(plan, ResumePlan::CreateFresh(_)));
}

#[test]
fn force_restart_ignores_the_stored_header() {
    let h = stored_header();
    let plan = plan_resume(Some(Ok(h)), 100, &identity(), 10, true, false).unwrap();
    match plan {
        ResumePlan::CreateFresh(f) => assert!(!f.is_chunk_complete(3)),
        ResumePlan::Adopt(_) => panic!("force-restart must not adopt"),
    }
}

#[test]
fn undecodable_file_with_resume_only_surfaces_the_decode_error() {
    let e = HydraError::Format(FormatError::BadMagic);
    let r = plan_resume(Some(Err(e)), 100, &identity(), 10, false, true);
    assert!(matches!(r, Err(HydraError::Format(FormatError::BadMagic))));
}

#[test]
fn undecodable_file_without_resume_only_rebuilds() {
    let e = HydraError::Format(FormatError::Truncated);
    let plan = plan_resume(Some(Err(e)), 100, &identity(), 10, false, false).unwrap();
    assert!(matches!(plan, ResumePlan::CreateFresh(_)));
}

#[test]
fn resume_refetches_only_the_failed_chunk() {
    // A run fetched every chunk but index 1, whose fetch exhausted its
    // retries: its bit stayed unset. The next run adopts the file and
    // plans exactly that chunk again.
    let id = identity();
    let mut h = PersistedHeader::new(100, id.etag_hash, id.url_hash, 10).unwrap();
    for i in 0..10 {
        if i != 1 {
            h.set_chunk_complete(i);
        }
    }
    assert!(!h.is_download_complete());
    let region = encode_header(&h).unwrap();
    let reread = decode_header(&region).unwrap();
    let plan = plan_resume(Some(Ok(reread)), 100, &identity(), 10, false, false).unwrap();
    match plan {
        ResumePlan::Adopt(a) => {
            assert_eq!(a.get_incomplete_chunks(), vec![(10, 19)]);
        }
        ResumePlan::CreateFresh(_) => panic!("expected adoption"),
    }
}

#[test]
fn adoption_survives_a_disk_roundtrip() {
    // Persist the stored header, mark one more chunk complete, re-persist
    // the bitmap region alone (as the scheduler does), then decode and
    // resume against it.
    let mut h = stored_header();
    let mut region = encode_header(&h).unwrap();
    h.set_chunk_complete(5);
    let bm = h.bitmap_bytes();
    region[hydra_httpdl::BITMAP_OFFSET..hydra_httpdl::BITMAP_OFFSET + bm.len()]
        .copy_from_slice(&bm);
    let reread = decode_header(&region).unwrap();
    let plan = plan_resume(Some(Ok(reread)), 100, &identity(), 77, false, false).unwrap();
    match plan {
        ResumePlan::Adopt(a) => {
            assert!(a.is_chunk_complete(3) && a.is_chunk_complete(5) && a.is_chunk_complete(7));
            assert_eq!(a.get_incomplete_chunks().len(), 7);
        }
        ResumePlan::CreateFresh(_) => panic!("expected adoption after the roundtrip"),
    }
}
