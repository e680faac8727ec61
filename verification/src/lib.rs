//! Resume-state engine and chunk scheduler for a resumable, parallel HTTP
//! file downloader.
//!
//! A remote file is split into byte-range chunks that are fetched
//! concurrently. Progress is persisted in a fixed-size binary header at the
//! start of the working file: an identity (SHA-256 digests of the URL and
//! ETag), the remote file size, the chunk geometry, and a completion bitmap
//! with one bit per chunk. An interrupted transfer resumes by re-reading the
//! header and re-fetching only the chunks whose bits are unset. Once every
//! bit is set, the finalizer strips the header region so the file becomes
//! byte-identical to the remote content.
//!
//! This crate holds the verified logic: the header codec, the completion
//! bitmap, the chunk planner, the resume decision engine, the retry and
//! stream-accounting state machines, the bounded-window scheduler, and the
//! finalizer. Network and disk I/O live outside it and hand in plain values.

use vstd::prelude::*;

pub mod bitmap;
pub mod bytes;
pub mod codec;
pub mod config;
pub mod engine;
pub mod error;
pub mod fetch;
pub mod finalize;
pub mod hashing;
pub mod header;
pub mod naming;
pub mod planner;
pub mod scheduler;

verus! {

/// Size in bytes of the region reserved at the start of a working file for
/// the persisted resume header. The payload begins at this offset while a
/// transfer is in progress.
pub const HEADER_SIZE: usize = 4096;

/// Byte offset of the completion bitmap inside the header region: the size
/// of the fixed fields before it, magic (5) + version (1) + file size (8)
/// + etag hash (32) + url hash (32) + chunk size (4) + chunk count (4).
pub const BITMAP_OFFSET: usize = 86;

/// Largest chunk count whose bitmap still fits in the header budget:
/// (HEADER_SIZE - BITMAP_OFFSET) * 8 bits.
pub const MAX_CHUNK_COUNT: u64 = (4096 - 86) * 8;

/// On-disk format version; any other value is rejected on decode.
pub const FORMAT_VERSION: u8 = 1;

} // verus!
