//! The persisted resume header: identity, size, chunk geometry and the
//! completion bitmap. One header governs one working file.

use vstd::prelude::*;
use crate::bitmap::ChunkBitmap;
use crate::error::HydraError;
use crate::MAX_CHUNK_COUNT;

verus! {

/// Number of chunks a file of `file_size` bytes splits into at `chunk_size`
/// bytes per chunk: `ceil(file_size / chunk_size)`.
pub open spec fn chunk_count_spec(file_size: u64, chunk_size: u32) -> int
    recommends
        chunk_size >= 1,
{
    if file_size == 0 {
        0
    } else {
        (file_size - 1) as int / (chunk_size as int) + 1
    }
}

/// The chunk count is the ceiling of `file_size / chunk_size`, in its
/// textbook form `(file_size + chunk_size - 1) / chunk_size`.
pub proof fn lemma_chunk_count_is_ceil(file_size: u64, chunk_size: u32)
    requires
        chunk_size >= 1,
    ensures
        chunk_count_spec(file_size, chunk_size) == (file_size + chunk_size - 1) as int / (
        chunk_size as int),
{
    let f = file_size as int;
    let c = chunk_size as int;
    if f == 0 {
        vstd::arithmetic::div_mod::lemma_basic_div(c - 1, c);
    } else {
        vstd::arithmetic::div_mod::lemma_div_plus_one(f - 1, c);
        assert(c + (f - 1) == f + c - 1);
    }
}

/// Bounds that make the ceiling a partition: `count` chunks cover the file,
/// and every chunk before the last one is full, so the last chunk is
/// non-empty.
pub proof fn lemma_chunk_count_bounds(file_size: u64, chunk_size: u32)
    requires
        chunk_size >= 1,
    ensures
        chunk_count_spec(file_size, chunk_size) >= 0,
        chunk_count_spec(file_size, chunk_size) * (chunk_size as int) >= file_size,
        file_size > 0 ==> (chunk_count_spec(file_size, chunk_size) - 1) * (chunk_size as int)
            < file_size,
        file_size > 0 ==> chunk_count_spec(file_size, chunk_size) >= 1,
{
    let f = file_size as int;
    let c = chunk_size as int;
    if f == 0 {
    } else {
        let q = (f - 1) / c;
        let r = (f - 1) % c;
        vstd::arithmetic::div_mod::lemma_fundamental_div_mod(f - 1, c);
        vstd::arithmetic::div_mod::lemma_mod_bound(f - 1, c);
        vstd::arithmetic::div_mod::lemma_div_pos_is_pos(f - 1, c);
        assert(f - 1 == c * q + r);
        vstd::arithmetic::mul::lemma_mul_is_distributive_add(c, q, 1);
        assert(c * (q + 1) == c * q + c);
        assert((q + 1) * c == c * (q + 1)) by (nonlinear_arith);
        assert(q * c == c * q) by (nonlinear_arith);
    }
}

/// The persisted resume state of one transfer: what is on disk in the
/// header region, minus the constant magic tag and version byte.
pub struct PersistedHeader {
    /// Remote content length in bytes; the authoritative total.
    pub file_size: u64,
    /// SHA-256 digest of the transfer's ETag (or its sentinel), 32 bytes.
    pub etag_hash: Vec<u8>,
    /// SHA-256 digest of the remote URL, 32 bytes.
    pub url_hash: Vec<u8>,
    /// Bytes per chunk, fixed at creation time.
    pub chunk_size: u32,
    /// `ceil(file_size / chunk_size)`.
    pub chunk_count: u32,
    /// One completion bit per chunk index.
    pub bitmap: ChunkBitmap,
}

/// Two headers carry the same persisted state, field by field.
pub open spec fn header_eq(a: PersistedHeader, b: PersistedHeader) -> bool {
    &&& a.file_size == b.file_size
    &&& a.etag_hash@ == b.etag_hash@
    &&& a.url_hash@ == b.url_hash@
    &&& a.chunk_size == b.chunk_size
    &&& a.chunk_count == b.chunk_count
    &&& a.bitmap.count == b.bitmap.count
    &&& a.bitmap.bytes@ == b.bitmap.bytes@
}

impl PersistedHeader {
    /// Structural invariant: both digests are 32 bytes, the chunk size is
    /// positive, the chunk count is the ceiling of `file_size / chunk_size`,
    /// and the bitmap holds exactly one bit per chunk.
    pub open spec fn wf(self) -> bool {
        &&& self.etag_hash@.len() == 32
        &&& self.url_hash@.len() == 32
        &&& self.chunk_size >= 1
        &&& self.chunk_count == chunk_count_spec(self.file_size, self.chunk_size)
        &&& self.bitmap.count == self.chunk_count
        &&& self.bitmap.wf()
    }

    /// Whether every chunk's completion bit is set.
    pub open spec fn complete(self) -> bool {
        self.bitmap.all_set()
    }

    /// A fresh header for a new transfer: chunk count derived from the
    /// requested geometry, every completion bit clear. Fails with
    /// `CapacityExceeded` exactly when the bitmap for the derived chunk
    /// count would overflow the fixed header budget.
    pub fn new(file_size: u64, etag_hash: Vec<u8>, url_hash: Vec<u8>, chunk_size: u32) -> (r:
        Result<Self, HydraError>)
        requires
            etag_hash@.len() == 32,
            url_hash@.len() == 32,
            chunk_size >= 1,
        ensures
            match r {
                Ok(h) => {
                    &&& chunk_count_spec(file_size, chunk_size) <= MAX_CHUNK_COUNT
                    &&& h.wf()
                    &&& h.file_size == file_size
                    &&& h.etag_hash@ == etag_hash@
                    &&& h.url_hash@ == url_hash@
                    &&& h.chunk_size == chunk_size
                    &&& forall|i: int| 0 <= i < h.chunk_count ==> !h.bitmap.bit(i)
                },
                Err(e) => {
                    &&& e == HydraError::CapacityExceeded
                    &&& chunk_count_spec(file_size, chunk_size) > MAX_CHUNK_COUNT
                },
            },
    {
        let count64: u64 = if file_size == 0 {
            0
        } else {
            (file_size - 1) / (chunk_size as u64) + 1
        };
        if count64 > MAX_CHUNK_COUNT {
            return Err(HydraError::CapacityExceeded);
        }
        let chunk_count = count64 as u32;
        let bitmap = ChunkBitmap::new(chunk_count);
        Ok(
            PersistedHeader {
                file_size,
                etag_hash,
                url_hash,
                chunk_size,
                chunk_count,
                bitmap,
            },
        )
    }

    /// Records chunk `chunk_index` as durably written. Only flips that one
    /// bit; every other bit and every header field is unchanged.
    pub fn set_chunk_complete(&mut self, chunk_index: u32)
        requires
            old(self).wf(),
            chunk_index < old(self).chunk_count,
        ensures
            final(self).wf(),
            final(self).file_size == old(self).file_size,
            final(self).etag_hash@ == old(self).etag_hash@,
            final(self).url_hash@ == old(self).url_hash@,
            final(self).chunk_size == old(self).chunk_size,
            final(self).chunk_count == old(self).chunk_count,
            final(self).bitmap.bit(chunk_index as int),
            forall|j: int|
                0 <= j < old(self).chunk_count && j != chunk_index ==> final(self).bitmap.bit(j)
                    == old(self).bitmap.bit(j),
    {
        self.bitmap.set(chunk_index);
    }

    /// Whether chunk `chunk_index` is recorded complete; indices at or past
    /// the chunk count are reported incomplete rather than addressed.
    pub fn is_chunk_complete(&self, chunk_index: u32) -> (r: bool)
        requires
            self.wf(),
        ensures
            r == (chunk_index < self.chunk_count && self.bitmap.bit(chunk_index as int)),
    {
        if chunk_index >= self.chunk_count {
            return false;
        }
        self.bitmap.get(chunk_index)
    }

    /// Whether every chunk is recorded complete.
    pub fn is_download_complete(&self) -> (r: bool)
        requires
            self.wf(),
        ensures
            r == self.complete(),
    {
        self.bitmap.is_complete()
    }

    /// A copy of the bitmap's backing bytes, as they are persisted at
    /// `BITMAP_OFFSET` inside the header region.
    pub fn bitmap_bytes(&self) -> (r: Vec<u8>)
        ensures
            r@ == self.bitmap.bytes@,
    {
        let src = &self.bitmap.bytes;
        let n = src.len();
        let mut out: Vec<u8> = Vec::new();
        let mut i: usize = 0;
        while i < n
            invariant
                n == src@.len(),
                i <= n,
                out@ == src@.subrange(0, i as int),
            decreases n - i,
        {
            out.push(src[i]);
            assert(out@ =~= src@.subrange(0, i + 1));
            i += 1;
        }
        assert(out@ =~= src@);
        out
    }
}

} // verus!
