//! Finalizer: once every chunk is complete, strips the header region by a
//! forward in-place shift, so the working file becomes byte-identical to
//! the remote content at offset 0.

use vstd::prelude::*;
use crate::error::HydraError;
use crate::header::PersistedHeader;
use crate::planner::{chunk_end_spec, chunk_start_spec, lemma_chunk_ranges_partition};
use crate::HEADER_SIZE;

verus! {

/// The bytes chunk `i` contributes to the working-file image: the payload
/// region's slice of chunk `i`'s byte range.
pub open spec fn chunk_payload(image: Seq<u8>, h: PersistedHeader, i: int) -> Seq<u8> {
    image.subrange(
        HEADER_SIZE + chunk_start_spec(h.chunk_size, i),
        HEADER_SIZE + chunk_end_spec(h.file_size, h.chunk_size, i) + 1,
    )
}

/// The concatenation of the first `n` chunks' payloads, in index order.
pub open spec fn chunk_payloads_upto(image: Seq<u8>, h: PersistedHeader, n: int) -> Seq<u8>
    decreases n,
{
    if n <= 0 {
        Seq::empty()
    } else {
        chunk_payloads_upto(image, h, n - 1) + chunk_payload(image, h, n - 1)
    }
}

/// The payload region of a working-file image is exactly the concatenation
/// of all chunk payloads in index order; so a finalized file, which
/// `finalize_image` proves equal to the payload region, is byte-identical
/// to the chunks laid end to end.
pub proof fn lemma_payload_is_chunk_concatenation(image: Seq<u8>, h: PersistedHeader)
    requires
        h.wf(),
        image.len() == HEADER_SIZE + h.file_size,
    ensures
        chunk_payloads_upto(image, h, h.chunk_count as int) == image.subrange(
            HEADER_SIZE as int,
            HEADER_SIZE + h.file_size,
        ),
{
    if h.file_size == 0 {
        assert(chunk_payloads_upto(image, h, 0) =~= image.subrange(
            HEADER_SIZE as int,
            HEADER_SIZE as int,
        ));
    } else {
        lemma_chunk_ranges_partition(h.file_size, h.chunk_size);
        lemma_payload_prefix(image, h, h.chunk_count as int);
        assert(chunk_end_spec(h.file_size, h.chunk_size, h.chunk_count - 1) == h.file_size - 1);
    }
}

/// Induction step for the concatenation law: the first `n` payloads cover
/// the payload region up to the end of chunk `n - 1`.
proof fn lemma_payload_prefix(image: Seq<u8>, h: PersistedHeader, n: int)
    requires
        h.wf(),
        h.file_size > 0,
        image.len() == HEADER_SIZE + h.file_size,
        1 <= n <= h.chunk_count,
    ensures
        chunk_payloads_upto(image, h, n) == image.subrange(
            HEADER_SIZE as int,
            HEADER_SIZE + chunk_end_spec(h.file_size, h.chunk_size, n - 1) + 1,
        ),
    decreases n,
{
    lemma_chunk_ranges_partition(h.file_size, h.chunk_size);
    if n == 1 {
        assert(chunk_start_spec(h.chunk_size, 0) == 0);
        assert(chunk_payloads_upto(image, h, 0) == Seq::<u8>::empty());
        assert(chunk_payloads_upto(image, h, 1) =~= chunk_payload(image, h, 0));
    } else {
        lemma_payload_prefix(image, h, n - 1);
        assert(chunk_end_spec(h.file_size, h.chunk_size, n - 2) + 1 == chunk_start_spec(
            h.chunk_size,
            n - 1,
        ));
        assert(chunk_payloads_upto(image, h, n) =~= image.subrange(
            HEADER_SIZE as int,
            HEADER_SIZE + chunk_end_spec(h.file_size, h.chunk_size, n - 1) + 1,
        ));
    }
}

/// Shifts the payload of the working-file image to offset 0 and truncates
/// it to `file_size`, removing the header region. Refuses to run — leaving
/// the image untouched — unless the bitmap proves completion.
///
/// The read cursor stays exactly `HEADER_SIZE` bytes ahead of the write
/// cursor, so each byte is read before anything overwrites it and the
/// shift is correct however the copying is buffered.
pub fn finalize_image(h: &PersistedHeader, image: &mut Vec<u8>) -> (r: Result<(), HydraError>)
    requires
        h.wf(),
        old(image)@.len() == HEADER_SIZE + h.file_size,
    ensures
        h.complete() ==> r is Ok,
        !h.complete() ==> r == Err::<(), HydraError>(HydraError::NotComplete),
        r is Ok ==> final(image)@ == old(image)@.subrange(
            HEADER_SIZE as int,
            HEADER_SIZE + h.file_size,
        ),
        r is Err ==> final(image)@ == old(image)@,
    {
    if !h.is_download_complete() {
        return Err(HydraError::NotComplete);
    }
    let len: usize = image.len();
    let payload_len: usize = len - HEADER_SIZE;
    let mut write_pos: usize = 0;
    while write_pos < payload_len
        invariant
            image@.len() == old(image)@.len(),
            old(image)@.len() == HEADER_SIZE + payload_len,
            HEADER_SIZE + payload_len <= usize::MAX,
            write_pos <= payload_len,
            forall|j: int| 0 <= j < write_pos ==> image@[j] == old(image)@[HEADER_SIZE + j],
            forall|j: int|
                write_pos <= j < image@.len() ==> image@[j] == old(image)@[j],
        decreases payload_len - write_pos,
    {
        let read_pos: usize = HEADER_SIZE + write_pos;
        let byte = image[read_pos];
        image.set(write_pos, byte);
        write_pos += 1;
    }
    image.truncate(payload_len);
    assert(image@ =~= old(image)@.subrange(HEADER_SIZE as int, HEADER_SIZE + payload_len));
    Ok(())
}

} // verus!
