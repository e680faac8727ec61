//! Chunk planner: maps chunk indices to inclusive byte ranges of the remote
//! file and lists the chunks that still need fetching, using the header's
//! own geometry.

use vstd::prelude::*;
use crate::header::{chunk_count_spec, lemma_chunk_count_bounds, PersistedHeader};

verus! {

/// First byte of chunk `i`.
pub open spec fn chunk_start_spec(chunk_size: u32, i: int) -> int {
    i * (chunk_size as int)
}

/// Last byte of chunk `i`, inclusive: the chunk is full unless the file
/// ends first.
pub open spec fn chunk_end_spec(file_size: u64, chunk_size: u32, i: int) -> int {
    let full = (i + 1) * (chunk_size as int) - 1;
    if full <= file_size - 1 {
        full
    } else {
        file_size - 1
    }
}

/// The inclusive ranges of the chunks below `n` whose completion bit is
/// unset, in ascending index order.
pub open spec fn incomplete_upto(h: PersistedHeader, n: int) -> Seq<(u64, u64)>
    decreases n,
{
    if n <= 0 {
        Seq::empty()
    } else {
        incomplete_upto(h, n - 1) + if h.bitmap.bit(n - 1) {
            Seq::empty()
        } else {
            seq![
                (
                    chunk_start_spec(h.chunk_size, n - 1) as u64,
                    chunk_end_spec(h.file_size, h.chunk_size, n - 1) as u64,
                ),
            ]
        }
    }
}

/// The chunk ranges partition `[0, file_size)`: the first range starts at
/// byte 0, each later range starts right after its predecessor ends, the
/// last range ends at `file_size - 1`, and no range is empty.
pub proof fn lemma_chunk_ranges_partition(file_size: u64, chunk_size: u32)
    requires
        chunk_size >= 1,
        file_size > 0,
    ensures
        chunk_count_spec(file_size, chunk_size) >= 1,
        chunk_start_spec(chunk_size, 0) == 0,
        forall|i: int|
            0 <= i < chunk_count_spec(file_size, chunk_size) - 1
                ==> #[trigger] chunk_end_spec(file_size, chunk_size, i) + 1 == chunk_start_spec(
                chunk_size,
                i + 1,
            ),
        chunk_end_spec(file_size, chunk_size, chunk_count_spec(file_size, chunk_size) - 1)
            == file_size - 1,
        forall|i: int|
            0 <= i < chunk_count_spec(file_size, chunk_size)
                ==> #[trigger] chunk_start_spec(chunk_size, i) <= chunk_end_spec(
                file_size,
                chunk_size,
                i,
            ),
{
    let c = chunk_size as int;
    let f = file_size as int;
    let n = chunk_count_spec(file_size, chunk_size);
    lemma_chunk_count_bounds(file_size, chunk_size);
    assert forall|i: int| 0 <= i < n - 1 implies #[trigger] chunk_end_spec(
        file_size,
        chunk_size,
        i,
    ) + 1 == chunk_start_spec(chunk_size, i + 1) by {
        vstd::arithmetic::mul::lemma_mul_inequality(i + 1, n - 1, c);
        assert((i + 1) * c <= (n - 1) * c);
        assert((i + 1) * c - 1 <= f - 1);
    }
    assert(chunk_end_spec(file_size, chunk_size, n - 1) == f - 1) by {
        assert(n * c >= f);
        assert((n - 1 + 1) * c == n * c);
    }
    assert forall|i: int| 0 <= i < n implies #[trigger] chunk_start_spec(chunk_size, i)
        <= chunk_end_spec(file_size, chunk_size, i) by {
        vstd::arithmetic::mul::lemma_mul_is_distributive_add(c, i, 1);
        assert((i + 1) * c == c * (i + 1)) by (nonlinear_arith);
        assert(i * c == c * i) by (nonlinear_arith);
        assert((i + 1) * c == i * c + c);
        vstd::arithmetic::mul::lemma_mul_inequality(i, n - 1, c);
        assert(i * c <= (n - 1) * c);
    }
}

impl PersistedHeader {
    /// The inclusive byte range of chunk `chunk_index`, computed from the
    /// header's own stored geometry.
    pub fn chunk_range(&self, chunk_index: u32) -> (r: (u64, u64))
        requires
            self.wf(),
            chunk_index < self.chunk_count,
        ensures
            r.0 == chunk_start_spec(self.chunk_size, chunk_index as int),
            r.1 == chunk_end_spec(self.file_size, self.chunk_size, chunk_index as int),
            r.0 <= r.1 < self.file_size,
    {
        proof {
            lemma_chunk_count_bounds(self.file_size, self.chunk_size);
            let c = self.chunk_size as int;
            let i = chunk_index as int;
            let n = self.chunk_count as int;
            vstd::arithmetic::mul::lemma_mul_inequality(i, n - 1, c);
            vstd::arithmetic::mul::lemma_mul_is_distributive_add(c, i, 1);
            assert((i + 1) * c == c * (i + 1)) by (nonlinear_arith);
            assert(i * c == c * i) by (nonlinear_arith);
        }
        let start: u64 = (chunk_index as u64) * (self.chunk_size as u64);
        let remaining: u64 = self.file_size - start;
        let end: u64 = if remaining <= self.chunk_size as u64 {
            self.file_size - 1
        } else {
            start + self.chunk_size as u64 - 1
        };
        (start, end)
    }

    /// The byte ranges of every chunk whose completion bit is unset, in
    /// ascending chunk-index order. A chunk is incomplete exactly when its
    /// bit is unset.
    pub fn get_incomplete_chunks(&self) -> (r: Vec<(u64, u64)>)
        requires
            self.wf(),
        ensures
            r@ == incomplete_upto(*self, self.chunk_count as int),
    {
        let mut out: Vec<(u64, u64)> = Vec::new();
        let mut i: u32 = 0;
        while i < self.chunk_count
            invariant
                self.wf(),
                i <= self.chunk_count,
                out@ == incomplete_upto(*self, i as int),
            decreases self.chunk_count - i,
        {
            if !self.bitmap.get(i) {
                let range = self.chunk_range(i);
                out.push(range);
                assert(out@ =~= incomplete_upto(*self, i + 1));
            } else {
                assert(out@ =~= incomplete_upto(*self, i + 1));
            }
            i += 1;
        }
        out
    }
}

/// The chunk index owning a byte offset: offsets are mapped back to
/// indices by dividing by the chunk size, as the scheduler does with each
/// range's start.
pub fn chunk_index_of(start: u64, chunk_size: u32) -> (r: u64)
    requires
        chunk_size >= 1,
    ensures
        r == start as int / chunk_size as int,
{
    start / (chunk_size as u64)
}

/// A chunk's start maps back to its index: dividing `i * chunk_size` by
/// `chunk_size` yields `i` again, so the scheduler recovers the index of a
/// planned range from its start offset.
pub proof fn lemma_chunk_index_roundtrip(chunk_size: u32, i: int)
    requires
        chunk_size >= 1,
        i >= 0,
    ensures
        chunk_start_spec(chunk_size, i) / (chunk_size as int) == i,
{
    vstd::arithmetic::div_mod::lemma_div_multiples_vanish(i, chunk_size as int);
    assert(i * (chunk_size as int) == (chunk_size as int) * i) by (nonlinear_arith);
}

/// A header whose bits are all set plans nothing: the incomplete list of a
/// complete header is empty, so a finished transfer fetches no chunk.
pub proof fn lemma_complete_header_plans_nothing(h: PersistedHeader, n: int)
    requires
        forall|i: int| 0 <= i < n ==> h.bitmap.bit(i),
    ensures
        incomplete_upto(h, n).len() == 0,
    decreases n,
{
    if n > 0 {
        lemma_complete_header_plans_nothing(h, n - 1);
    }
}

} // verus!
