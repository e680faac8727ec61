//! Completion bitmap: one bit per chunk index, least-significant bit first
//! within each byte, persisted verbatim inside the header region.

use vstd::prelude::*;

verus! {

/// Whether bit `k` (counted from the least significant end) of `byte` is set.
pub open spec fn nth_bit(byte: u8, k: u8) -> bool
    recommends
        k < 8,
{
    (byte >> k) & 1 == 1
}

/// Number of bytes needed to hold `count` bits: `ceil(count / 8)`.
pub open spec fn bitmap_len(count: int) -> int {
    (count + 7) / 8
}

/// A fixed-capacity bitmap recording, for each chunk index below `count`,
/// whether that chunk's bytes are durably written.
pub struct ChunkBitmap {
    /// Backing bytes, exactly `ceil(count / 8)` of them; bit `i` lives in
    /// `bytes[i / 8]` at position `i % 8`.
    pub bytes: Vec<u8>,
    /// Number of addressable bits.
    pub count: u32,
}

impl ChunkBitmap {
    /// The backing store holds exactly the bits `0 .. count`.
    pub open spec fn wf(self) -> bool {
        self.bytes@.len() == bitmap_len(self.count as int)
    }

    /// Whether bit `i` is set.
    pub open spec fn bit(self, i: int) -> bool {
        nth_bit(self.bytes@[i / 8], (i % 8) as u8)
    }

    /// Whether every bit below `count` is set.
    pub open spec fn all_set(self) -> bool {
        forall|i: int| 0 <= i < self.count ==> self.bit(i)
    }

    /// A bitmap of `count` cleared bits.
    pub fn new(count: u32) -> (r: Self)
        ensures
            r.wf(),
            r.count == count,
            forall|i: int| 0 <= i < count ==> !r.bit(i),
    {
        let len64 = (count as u64 + 7) / 8;
        assert(len64 <= 0x2000_0000);
        let len = len64 as usize;
        let mut bytes: Vec<u8> = Vec::new();
        let mut k: usize = 0;
        while k < len
            invariant
                k <= len,
                bytes@.len() == k,
                forall|j: int| 0 <= j < k ==> bytes@[j] == 0u8,
            decreases len - k,
        {
            bytes.push(0u8);
            k += 1;
        }
        proof {
            assert(forall|t: u8| t < 8 ==> ((0u8 >> t) & 1 != 1)) by (bit_vector);
        }
        ChunkBitmap { bytes, count }
    }

    /// A bitmap over caller-supplied backing bytes, as read from disk.
    pub fn from_bytes(bytes: Vec<u8>, count: u32) -> (r: Self)
        requires
            bytes@.len() == bitmap_len(count as int),
        ensures
            r.wf(),
            r.count == count,
            r.bytes@ == bytes@,
    {
        ChunkBitmap { bytes, count }
    }

    /// Whether bit `i` is set.
    pub fn get(&self, i: u32) -> (r: bool)
        requires
            self.wf(),
            i < self.count,
        ensures
            r == self.bit(i as int),
    {
        let byte = self.bytes[(i / 8) as usize];
        let k: u8 = (i % 8) as u8;
        ((byte >> k) & 1) == 1
    }

    /// Sets bit `i`, leaving every other bit and every other byte unchanged.
    pub fn set(&mut self, i: u32)
        requires
            old(self).wf(),
            i < old(self).count,
        ensures
            final(self).wf(),
            final(self).count == old(self).count,
            final(self).bytes@.len() == old(self).bytes@.len(),
            final(self).bit(i as int),
            forall|j: int|
                0 <= j < old(self).count && j != i ==> final(self).bit(j) == old(self).bit(j),
            forall|b: int|
                0 <= b < old(self).bytes@.len() && b != i / 8 ==> final(self).bytes@[b] == old(
                    self,
                ).bytes@[b],
            final(self).bytes@[i as int / 8] == (old(self).bytes@[i as int / 8] | (1u8 << (i
                % 8) as u8)),
    {
        let idx = (i / 8) as usize;
        let k: u8 = (i % 8) as u8;
        let byte = self.bytes[idx];
        let updated = byte | (1u8 << k);
        self.bytes.set(idx, updated);
        proof {
            lemma_set_bit(byte, k);
            assert(forall|j: int|
                0 <= j < old(self).count && j != i ==> final(self).bit(j) == old(self).bit(j))
                by {
                assert forall|j: int|
                    0 <= j < old(self).count && j != i implies final(self).bit(j) == old(
                    self,
                ).bit(j) by {
                    if j / 8 == i / 8 {
                        assert((j % 8) as u8 != (i % 8) as u8) by {
                            vstd::arithmetic::div_mod::lemma_fundamental_div_mod(j, 8);
                            vstd::arithmetic::div_mod::lemma_fundamental_div_mod(i as int, 8);
                        }
                    }
                }
            }
        }
    }

    /// Whether every bit is set, i.e. every chunk is recorded complete.
    pub fn is_complete(&self) -> (r: bool)
        requires
            self.wf(),
        ensures
            r == self.all_set(),
    {
        let mut i: u32 = 0;
        while i < self.count
            invariant
                self.wf(),
                i <= self.count,
                forall|j: int| 0 <= j < i ==> self.bit(j),
            decreases self.count - i,
        {
            if !self.get(i) {
                return false;
            }
            i += 1;
        }
        true
    }
}

/// Setting bit `k` of a byte sets exactly that bit: bit `k` becomes set and
/// every other bit position keeps its value.
proof fn lemma_set_bit(byte: u8, k: u8)
    requires
        k < 8,
    ensures
        nth_bit(byte | (1u8 << k), k),
        forall|t: u8| t < 8 && t != k ==> nth_bit(byte | (1u8 << k), t) == nth_bit(byte, t),
{
    assert(((byte | (1u8 << k)) >> k) & 1 == 1) by (bit_vector)
        requires
            k < 8,
    ;
    assert(forall|t: u8|
        t < 8 && t != k ==> ((byte | (1u8 << k)) >> t) & 1 == (byte >> t) & 1) by (bit_vector)
        requires
            k < 8,
    ;
}

} // verus!
