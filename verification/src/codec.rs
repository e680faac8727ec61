//! Header codec: serializes a `PersistedHeader` into the fixed-size header
//! region and decodes it back, field by field at fixed offsets, with
//! little-endian integers.
//!
//! Layout: magic (5) | version (1) | file size (8, LE) | etag hash (32) |
//! url hash (32) | chunk size (4, LE) | chunk count (4, LE) | bitmap
//! (`ceil(chunkCount / 8)`) | zero padding up to `HEADER_SIZE`.

use vstd::prelude::*;
use crate::bitmap::{bitmap_len, ChunkBitmap};
use crate::bytes::{
    copy_range, push_u32_le, push_u64_le, read_u32_le, read_u64_le, u32_from_le, u32_le_bytes,
    u64_from_le, u64_le_bytes,
};
use crate::error::{FormatError, HydraError};
use crate::header::{chunk_count_spec, PersistedHeader};
use crate::{FORMAT_VERSION, HEADER_SIZE, MAX_CHUNK_COUNT};

verus! {

/// The five magic bytes that open every header region: the ASCII tag
/// "HYDRA".
pub open spec fn magic_bytes() -> Seq<u8> {
    seq![72u8, 89u8, 68u8, 82u8, 65u8]
}

/// The file size stored at offset 6 of a header region.
pub open spec fn stored_file_size(b: Seq<u8>) -> u64 {
    u64_from_le(b.subrange(6, 14))
}

/// The chunk size stored at offset 78 of a header region.
pub open spec fn stored_chunk_size(b: Seq<u8>) -> u32 {
    u32_from_le(b.subrange(78, 82))
}

/// The chunk count stored at offset 82 of a header region.
pub open spec fn stored_chunk_count(b: Seq<u8>) -> u32 {
    u32_from_le(b.subrange(82, 86))
}

/// The stored chunk geometry is usable: a positive chunk size, a chunk
/// count that is exactly `ceil(fileSize / chunkSize)`, and a bitmap that
/// fits the header budget.
pub open spec fn stored_geometry_ok(b: Seq<u8>) -> bool {
    &&& stored_chunk_size(b) >= 1
    &&& stored_chunk_count(b) == chunk_count_spec(stored_file_size(b), stored_chunk_size(b))
    &&& stored_chunk_count(b) <= MAX_CHUNK_COUNT
}

/// Why a header region fails to decode, or `None` if it decodes; checks are
/// made in this order.
pub open spec fn decode_err(b: Seq<u8>) -> Option<HydraError> {
    if b.len() < 5 {
        Some(HydraError::Format(FormatError::Truncated))
    } else if b.subrange(0, 5) != magic_bytes() {
        Some(HydraError::Format(FormatError::BadMagic))
    } else if b.len() < 6 {
        Some(HydraError::Format(FormatError::Truncated))
    } else if b[5] != FORMAT_VERSION {
        Some(HydraError::Format(FormatError::BadVersion))
    } else if b.len() < 86 {
        Some(HydraError::Format(FormatError::Truncated))
    } else if !stored_geometry_ok(b) {
        Some(HydraError::Format(FormatError::BadGeometry))
    } else if b.len() < 86 + bitmap_len(stored_chunk_count(b) as int) {
        Some(HydraError::Format(FormatError::Truncated))
    } else {
        None
    }
}

/// The serialized form of a header, padded with zeros to `HEADER_SIZE`.
pub open spec fn header_bytes(h: PersistedHeader) -> Seq<u8>
    recommends
        h.wf(),
        h.chunk_count <= MAX_CHUNK_COUNT,
{
    magic_bytes() + seq![FORMAT_VERSION] + u64_le_bytes(h.file_size) + h.etag_hash@ + h.url_hash@
        + u32_le_bytes(h.chunk_size) + u32_le_bytes(h.chunk_count) + h.bitmap.bytes@ + Seq::new(
        (HEADER_SIZE - 86 - h.bitmap.bytes@.len()) as nat,
        |i: int| 0u8,
    )
}

/// Appends all of `src` to `out`.
fn append_bytes(out: &mut Vec<u8>, src: &[u8])
    ensures
        final(out)@ == old(out)@ + src@,
{
    let n = src.len();
    let mut i: usize = 0;
    while i < n
        invariant
            n == src@.len(),
            i <= n,
            out@ == old(out)@ + src@.subrange(0, i as int),
        decreases n - i,
    {
        out.push(src[i]);
        assert(out@ =~= old(out)@ + src@.subrange(0, i + 1));
        i += 1;
    }
    assert(out@ =~= old(out)@ + src@);
}

/// Whether the region opens with the magic tag.
fn magic_matches(b: &[u8]) -> (r: bool)
    requires
        b@.len() >= 5,
    ensures
        r == (b@.subrange(0, 5) == magic_bytes()),
{
    let r = b[0] == 72 && b[1] == 89 && b[2] == 68 && b[3] == 82 && b[4] == 65;
    proof {
        let s = b@.subrange(0, 5);
        assert(s[0] == b@[0] && s[1] == b@[1] && s[2] == b@[2] && s[3] == b@[3] && s[4] == b@[4]);
        if r {
            assert(s =~= magic_bytes());
        } else {
            assert(s != magic_bytes());
        }
    }
    r
}

/// Serializes `h` into a fresh header region of exactly `HEADER_SIZE`
/// bytes. Fails with `CapacityExceeded` exactly when the bitmap does not
/// fit the budget, rather than truncating or overflowing the region.
pub fn encode_header(h: &PersistedHeader) -> (r: Result<Vec<u8>, HydraError>)
    requires
        h.wf(),
    ensures
        match r {
            Ok(b) => {
                &&& h.chunk_count <= MAX_CHUNK_COUNT
                &&& b@.len() == HEADER_SIZE
                &&& b@ == header_bytes(*h)
            },
            Err(e) => {
                &&& e == HydraError::CapacityExceeded
                &&& h.chunk_count > MAX_CHUNK_COUNT
            },
        },
{
    if h.chunk_count as u64 > MAX_CHUNK_COUNT {
        return Err(HydraError::CapacityExceeded);
    }
    proof {
        vstd::arithmetic::div_mod::lemma_div_is_ordered(
            h.chunk_count as int + 7,
            MAX_CHUNK_COUNT as int + 7,
            8,
        );
        assert(h.bitmap.bytes@.len() <= 4010);
    }
    let bitmap_bytes_len = h.bitmap.bytes.len();
    let mut out: Vec<u8> = Vec::new();
    out.push(72u8);
    out.push(89u8);
    out.push(68u8);
    out.push(82u8);
    out.push(65u8);
    assert(out@ =~= magic_bytes());
    out.push(FORMAT_VERSION);
    push_u64_le(&mut out, h.file_size);
    append_bytes(&mut out, h.etag_hash.as_slice());
    append_bytes(&mut out, h.url_hash.as_slice());
    push_u32_le(&mut out, h.chunk_size);
    push_u32_le(&mut out, h.chunk_count);
    append_bytes(&mut out, h.bitmap.bytes.as_slice());
    assert(out@.len() == 86 + bitmap_bytes_len);
    let ghost before_pad = out@;
    let pad: usize = HEADER_SIZE - 86 - bitmap_bytes_len;
    let mut k: usize = 0;
    while k < pad
        invariant
            k <= pad,
            out@ == before_pad + Seq::new(k as nat, |i: int| 0u8),
        decreases pad - k,
    {
        out.push(0u8);
        assert(out@ =~= before_pad + Seq::new((k + 1) as nat, |i: int| 0u8));
        k += 1;
    }
    assert(out@ =~= header_bytes(*h));
    Ok(out)
}

/// Round trip: decoding the serialized form of a well-formed header that
/// fits the budget succeeds and yields back the same file size, etag hash,
/// url hash, chunk size, chunk count and bitmap. Together with the
/// contracts of `encode_header` and `decode_header`, this pins
/// `decode_header(encode_header(h)) == Ok(h)` field by field.
pub proof fn lemma_header_roundtrip(h: PersistedHeader)
    requires
        h.wf(),
        h.chunk_count <= MAX_CHUNK_COUNT,
    ensures
        ({
            let b = header_bytes(h);
            &&& decode_err(b) is None
            &&& stored_file_size(b) == h.file_size
            &&& b.subrange(14, 46) == h.etag_hash@
            &&& b.subrange(46, 78) == h.url_hash@
            &&& stored_chunk_size(b) == h.chunk_size
            &&& stored_chunk_count(b) == h.chunk_count
            &&& b.subrange(86, 86 + bitmap_len(h.chunk_count as int)) == h.bitmap.bytes@
        }),
{
    let b = header_bytes(h);
    let bl = h.bitmap.bytes@.len() as int;
    vstd::arithmetic::div_mod::lemma_div_is_ordered(
        h.chunk_count as int + 7,
        MAX_CHUNK_COUNT as int + 7,
        8,
    );
    assert(bl <= 4010);
    assert(b.len() == HEADER_SIZE);
    assert(b.subrange(0, 5) =~= magic_bytes());
    assert(b[5] == FORMAT_VERSION);
    assert(b.subrange(6, 14) =~= u64_le_bytes(h.file_size));
    crate::bytes::lemma_u64_le_roundtrip(h.file_size);
    assert(b.subrange(14, 46) =~= h.etag_hash@);
    assert(b.subrange(46, 78) =~= h.url_hash@);
    assert(b.subrange(78, 82) =~= u32_le_bytes(h.chunk_size));
    assert(b.subrange(82, 86) =~= u32_le_bytes(h.chunk_count));
    crate::bytes::lemma_u32_le_roundtrip(h.chunk_size);
    crate::bytes::lemma_u32_le_roundtrip(h.chunk_count);
    assert(b.subrange(86, 86 + bl) =~= h.bitmap.bytes@);
}

/// Decodes a header region. Validates the magic tag and version exactly,
/// requires a usable stored geometry, and reconstructs the bitmap from the
/// stored chunk count; any violation fails with the matching format error
/// instead of a silent fallback.
pub fn decode_header(b: &[u8]) -> (r: Result<PersistedHeader, HydraError>)
    ensures
        match r {
            Ok(h) => {
                &&& decode_err(b@) is None
                &&& h.wf()
                &&& h.chunk_count <= MAX_CHUNK_COUNT
                &&& h.file_size == stored_file_size(b@)
                &&& h.etag_hash@ == b@.subrange(14, 46)
                &&& h.url_hash@ == b@.subrange(46, 78)
                &&& h.chunk_size == stored_chunk_size(b@)
                &&& h.chunk_count == stored_chunk_count(b@)
                &&& h.bitmap.count == h.chunk_count
                &&& h.bitmap.bytes@ == b@.subrange(86, 86 + bitmap_len(h.chunk_count as int))
            },
            Err(e) => decode_err(b@) == Some(e),
        },
{
    if b.len() < 5 {
        return Err(HydraError::Format(FormatError::Truncated));
    }
    if !magic_matches(b) {
        return Err(HydraError::Format(FormatError::BadMagic));
    }
    if b.len() < 6 {
        return Err(HydraError::Format(FormatError::Truncated));
    }
    if b[5] != FORMAT_VERSION {
        return Err(HydraError::Format(FormatError::BadVersion));
    }
    if b.len() < 86 {
        return Err(HydraError::Format(FormatError::Truncated));
    }
    let file_size = read_u64_le(b, 6);
    let chunk_size = read_u32_le(b, 78);
    let chunk_count = read_u32_le(b, 82);
    if chunk_size == 0 {
        return Err(HydraError::Format(FormatError::BadGeometry));
    }
    let expected_count: u64 = if file_size == 0 {
        0
    } else {
        (file_size - 1) / (chunk_size as u64) + 1
    };
    if chunk_count as u64 != expected_count || chunk_count as u64 > MAX_CHUNK_COUNT {
        return Err(HydraError::Format(FormatError::BadGeometry));
    }
    let bitmap_bytes_len = ((chunk_count as u64 + 7) / 8) as usize;
    if b.len() < 86 + bitmap_bytes_len {
        return Err(HydraError::Format(FormatError::Truncated));
    }
    let bm = copy_range(b, 86, 86 + bitmap_bytes_len);
    let etag_hash = copy_range(b, 14, 46);
    let url_hash = copy_range(b, 46, 78);
    let bitmap = ChunkBitmap::from_bytes(bm, chunk_count);
    Ok(
        PersistedHeader {
            file_size,
            etag_hash,
            url_hash,
            chunk_size,
            chunk_count,
            bitmap,
        },
    )
}

} // verus!
