//! Fixed-width little-endian integer encoding and byte-sequence helpers used
//! by the header codec.

use vstd::prelude::*;

verus! {

/// The eight little-endian bytes of a 64-bit value, least significant first.
pub open spec fn u64_le_bytes(v: u64) -> Seq<u8> {
    seq![
        (v & 0xff) as u8,
        ((v >> 8) & 0xff) as u8,
        ((v >> 16) & 0xff) as u8,
        ((v >> 24) & 0xff) as u8,
        ((v >> 32) & 0xff) as u8,
        ((v >> 40) & 0xff) as u8,
        ((v >> 48) & 0xff) as u8,
        ((v >> 56) & 0xff) as u8,
    ]
}

/// The 64-bit value read from eight little-endian bytes.
pub open spec fn u64_from_le(b: Seq<u8>) -> u64
    recommends
        b.len() == 8,
{
    (b[0] as u64) | ((b[1] as u64) << 8) | ((b[2] as u64) << 16) | ((b[3] as u64) << 24)
        | ((b[4] as u64) << 32) | ((b[5] as u64) << 40) | ((b[6] as u64) << 48) | ((b[7]
        as u64) << 56)
}

/// The four little-endian bytes of a 32-bit value, least significant first.
pub open spec fn u32_le_bytes(v: u32) -> Seq<u8> {
    seq![(v & 0xff) as u8, ((v >> 8) & 0xff) as u8, ((v >> 16) & 0xff) as u8, ((v >> 24) & 0xff) as u8]
}

/// The 32-bit value read from four little-endian bytes.
pub open spec fn u32_from_le(b: Seq<u8>) -> u32
    recommends
        b.len() == 4,
{
    (b[0] as u32) | ((b[1] as u32) << 8) | ((b[2] as u32) << 16) | ((b[3] as u32) << 24)
}

/// Reading back the little-endian bytes of a 64-bit value yields the value.
pub proof fn lemma_u64_le_roundtrip(v: u64)
    ensures
        u64_from_le(u64_le_bytes(v)) == v,
{
    let b0 = (v & 0xff) as u8;
    let b1 = ((v >> 8) & 0xff) as u8;
    let b2 = ((v >> 16) & 0xff) as u8;
    let b3 = ((v >> 24) & 0xff) as u8;
    let b4 = ((v >> 32) & 0xff) as u8;
    let b5 = ((v >> 40) & 0xff) as u8;
    let b6 = ((v >> 48) & 0xff) as u8;
    let b7 = ((v >> 56) & 0xff) as u8;
    assert((b0 as u64) | ((b1 as u64) << 8) | ((b2 as u64) << 16) | ((b3 as u64) << 24) | ((b4
        as u64) << 32) | ((b5 as u64) << 40) | ((b6 as u64) << 48) | ((b7 as u64) << 56) == v)
        by (bit_vector)
        requires
            b0 == (v & 0xff) as u8,
            b1 == ((v >> 8) & 0xff) as u8,
            b2 == ((v >> 16) & 0xff) as u8,
            b3 == ((v >> 24) & 0xff) as u8,
            b4 == ((v >> 32) & 0xff) as u8,
            b5 == ((v >> 40) & 0xff) as u8,
            b6 == ((v >> 48) & 0xff) as u8,
            b7 == ((v >> 56) & 0xff) as u8,
    ;
}

/// Reading back the little-endian bytes of a 32-bit value yields the value.
pub proof fn lemma_u32_le_roundtrip(v: u32)
    ensures
        u32_from_le(u32_le_bytes(v)) == v,
{
    let b0 = (v & 0xff) as u8;
    let b1 = ((v >> 8) & 0xff) as u8;
    let b2 = ((v >> 16) & 0xff) as u8;
    let b3 = ((v >> 24) & 0xff) as u8;
    assert((b0 as u32) | ((b1 as u32) << 8) | ((b2 as u32) << 16) | ((b3 as u32) << 24) == v)
        by (bit_vector)
        requires
            b0 == (v & 0xff) as u8,
            b1 == ((v >> 8) & 0xff) as u8,
            b2 == ((v >> 16) & 0xff) as u8,
            b3 == ((v >> 24) & 0xff) as u8,
    ;
}

/// Appends the eight little-endian bytes of `v` to `out`.
pub fn push_u64_le(out: &mut Vec<u8>, v: u64)
    ensures
        final(out)@ == old(out)@ + u64_le_bytes(v),
{
    out.push((v & 0xff) as u8);
    out.push(((v >> 8) & 0xff) as u8);
    out.push(((v >> 16) & 0xff) as u8);
    out.push(((v >> 24) & 0xff) as u8);
    out.push(((v >> 32) & 0xff) as u8);
    out.push(((v >> 40) & 0xff) as u8);
    out.push(((v >> 48) & 0xff) as u8);
    out.push(((v >> 56) & 0xff) as u8);
    assert(out@ =~= old(out)@ + u64_le_bytes(v));
}

/// Appends the four little-endian bytes of `v` to `out`.
pub fn push_u32_le(out: &mut Vec<u8>, v: u32)
    ensures
        final(out)@ == old(out)@ + u32_le_bytes(v),
{
    out.push((v & 0xff) as u8);
    out.push(((v >> 8) & 0xff) as u8);
    out.push(((v >> 16) & 0xff) as u8);
    out.push(((v >> 24) & 0xff) as u8);
    assert(out@ =~= old(out)@ + u32_le_bytes(v));
}

/// Reads the 64-bit little-endian value stored at `off`.
pub fn read_u64_le(b: &[u8], off: usize) -> (r: u64)
    requires
        off + 8 <= b@.len(),
    ensures
        r == u64_from_le(b@.subrange(off as int, off + 8)),
{
    let r = (b[off] as u64) | ((b[off + 1] as u64) << 8u64) | ((b[off + 2] as u64) << 16u64) | ((
    b[off + 3] as u64) << 24u64) | ((b[off + 4] as u64) << 32u64) | ((b[off + 5] as u64) << 40u64)
        | ((b[off + 6] as u64) << 48u64) | ((b[off + 7] as u64) << 56u64);
    proof {
        let s = b@.subrange(off as int, off + 8);
        assert(s[0] == b@[off as int]);
        assert(s[1] == b@[off + 1]);
        assert(s[2] == b@[off + 2]);
        assert(s[3] == b@[off + 3]);
        assert(s[4] == b@[off + 4]);
        assert(s[5] == b@[off + 5]);
        assert(s[6] == b@[off + 6]);
        assert(s[7] == b@[off + 7]);
    }
    r
}

/// Reads the 32-bit little-endian value stored at `off`.
pub fn read_u32_le(b: &[u8], off: usize) -> (r: u32)
    requires
        off + 4 <= b@.len(),
    ensures
        r == u32_from_le(b@.subrange(off as int, off + 4)),
{
    let r = (b[off] as u32) | ((b[off + 1] as u32) << 8u32) | ((b[off + 2] as u32) << 16u32) | ((
    b[off + 3] as u32) << 24u32);
    proof {
        let s = b@.subrange(off as int, off + 4);
        assert(s[0] == b@[off as int]);
        assert(s[1] == b@[off + 1]);
        assert(s[2] == b@[off + 2]);
        assert(s[3] == b@[off + 3]);
    }
    r
}

/// Copies `b[start .. end]` into a fresh vector.
pub fn copy_range(b: &[u8], start: usize, end: usize) -> (r: Vec<u8>)
    requires
        start <= end <= b@.len(),
    ensures
        r@ == b@.subrange(start as int, end as int),
{
    let mut out: Vec<u8> = Vec::new();
    let mut i: usize = start;
    while i < end
        invariant
            start <= i <= end <= b@.len(),
            out@ == b@.subrange(start as int, i as int),
        decreases end - i,
    {
        out.push(b[i]);
        assert(out@ =~= b@.subrange(start as int, i + 1));
        i += 1;
    }
    out
}

/// Copies a byte vector.
pub fn clone_bytes(v: &Vec<u8>) -> (r: Vec<u8>)
    ensures
        r@ == v@,
{
    let n = v.len();
    let mut out: Vec<u8> = Vec::new();
    let mut i: usize = 0;
    while i < n
        invariant
            n == v@.len(),
            i <= n,
            out@ == v@.subrange(0, i as int),
        decreases n - i,
    {
        out.push(v[i]);
        assert(out@ =~= v@.subrange(0, i + 1));
        i += 1;
    }
    assert(out@ =~= v@);
    out
}

/// Compares two byte slices for equality of their contents.
pub fn bytes_eq(a: &[u8], b: &[u8]) -> (r: bool)
    ensures
        r == (a@ == b@),
{
    if a.len() != b.len() {
        assert(a@ != b@);
        return false;
    }
    let n = a.len();
    let mut i: usize = 0;
    while i < n
        invariant
            n == a@.len(),
            a@.len() == b@.len(),
            i <= n,
            forall|j: int| 0 <= j < i ==> a@[j] == b@[j],
        decreases n - i,
    {
        if a[i] != b[i] {
            return false;
        }
        i += 1;
    }
    assert(a@ =~= b@);
    true
}

} // verus!
